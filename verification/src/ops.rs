use vstd::prelude::*;
use vstd::utf8::encode_utf8;
use crate::codec::{
    lemma_enc_lease_len, lemma_enc_maintenance_len, lemma_enc_property_len, utf8_len,
    MAX_RECORD_BYTES,
};
use crate::errors::{Error, ErrorKind};
use crate::records::{
    LeaseAgreement, LeaseAgreementPayload, LeaseAgreementPayloadV, LeaseAgreementV,
    MaintenanceRequest, MaintenanceRequestPayload, MaintenanceRequestPayloadV,
    MaintenanceRequestV, Property, PropertyPayload, PropertyPayloadV, PropertyV, NANOS_PER_SEC,
};
use crate::storage::{
    byte_table_contents, counter_get, counter_set, counter_value, storage_init, CounterCell,
};
use crate::table::{entry_sound, store_sound, Record, Table};

verus! {

/// The state of the registry, as mathematics: the next id the shared
/// allocator will hand out, and the three entity tables.
pub ghost struct RegistryV {
    pub next_id: u64,
    pub properties: Map<u64, PropertyV>,
    pub leases: Map<u64, LeaseAgreementV>,
    pub maintenance: Map<u64, MaintenanceRequestV>,
}

/// Every stored id was allocated below the counter's present value, and each
/// record carries the id it is stored under.
pub open spec fn registry_inv(v: RegistryV) -> bool {
    &&& forall|k: u64| #[trigger]
        v.properties.contains_key(k) ==> k < v.next_id && v.properties[k].id == k
    &&& forall|k: u64| #[trigger] v.leases.contains_key(k) ==> k < v.next_id && v.leases[k].id == k
    &&& forall|k: u64| #[trigger]
        v.maintenance.contains_key(k) ==> k < v.next_id && v.maintenance[k].id == k
}

/// A property payload passes validation when address and owner are nonempty.
pub open spec fn property_payload_valid(p: PropertyPayloadV) -> bool {
    p.address.len() > 0 && p.owner.len() > 0
}

/// A lease payload passes validation when the tenant is nonempty and the
/// start date lies strictly before the end date.
pub open spec fn lease_payload_valid(p: LeaseAgreementPayloadV) -> bool {
    p.tenant.len() > 0 && p.start_date < p.end_date
}

/// A maintenance payload passes validation when its status is "pending" or
/// "completed".
pub open spec fn maintenance_payload_valid(p: MaintenanceRequestPayloadV) -> bool {
    p.status == "pending"@ || p.status == "completed"@
}

/// Why creating a property from this payload is rejected, if it is: the only
/// ground is a payload that fails validation.
pub open spec fn property_create_rejection(p: PropertyPayloadV) -> Option<ErrorKind> {
    if !property_payload_valid(p) {
        Some(ErrorKind::ValidationError)
    } else {
        None
    }
}

/// Why creating a lease from this payload is rejected, if it is: validation
/// is checked first, then the existence of the referenced property.
pub open spec fn lease_create_rejection(pre: RegistryV, p: LeaseAgreementPayloadV) -> Option<
    ErrorKind,
> {
    if !lease_payload_valid(p) {
        Some(ErrorKind::ValidationError)
    } else if !pre.properties.contains_key(p.property_id) {
        Some(ErrorKind::NotFound)
    } else {
        None
    }
}

/// Why creating a maintenance request from this payload is rejected, if it
/// is: validation is checked first, then the existence of the referenced
/// property.
pub open spec fn maintenance_create_rejection(pre: RegistryV, p: MaintenanceRequestPayloadV) -> Option<
    ErrorKind,
> {
    if !maintenance_payload_valid(p) {
        Some(ErrorKind::ValidationError)
    } else if !pre.properties.contains_key(p.property_id) {
        Some(ErrorKind::NotFound)
    } else {
        None
    }
}

/// The record built from this payload fits the table's capacity ceiling:
/// ids, dates and bit patterns take eight bytes each, and each string field
/// a four-byte count plus its UTF-8 bytes.
pub open spec fn property_payload_fits(p: PropertyPayloadV) -> bool {
    36 + encode_utf8(p.address).len() + encode_utf8(p.owner).len() + encode_utf8(p.status).len()
        <= MAX_RECORD_BYTES
}

/// The record built from this payload fits the table's capacity ceiling.
pub open spec fn lease_payload_fits(p: LeaseAgreementPayloadV) -> bool {
    56 + encode_utf8(p.tenant).len() + encode_utf8(p.digital_signature).len() <= MAX_RECORD_BYTES
}

/// The record built from this payload fits the table's capacity ceiling.
pub open spec fn maintenance_payload_fits(p: MaintenanceRequestPayloadV) -> bool {
    36 + encode_utf8(p.description).len() + encode_utf8(p.status).len() + encode_utf8(
        p.priority,
    ).len() <= MAX_RECORD_BYTES
}

/// Reports whether the record built from this payload will fit the capacity
/// ceiling, so that a caller can test [`property_payload_fits`] before
/// creating or updating.
pub fn property_payload_within_capacity(p: &PropertyPayload) -> (r: bool)
    ensures
        r == property_payload_fits(p@),
{
    let a = utf8_len(p.address.as_str());
    let o = utf8_len(p.owner.as_str());
    let s = utf8_len(p.status.as_str());
    if a > MAX_RECORD_BYTES || o > MAX_RECORD_BYTES || s > MAX_RECORD_BYTES {
        return false;
    }
    36 + a + o + s <= MAX_RECORD_BYTES
}

/// Reports whether the record built from this payload will fit the capacity
/// ceiling, so that a caller can test [`lease_payload_fits`] before creating
/// or updating.
pub fn lease_payload_within_capacity(p: &LeaseAgreementPayload) -> (r: bool)
    ensures
        r == lease_payload_fits(p@),
{
    let t = utf8_len(p.tenant.as_str());
    let g = utf8_len(p.digital_signature.as_str());
    if t > MAX_RECORD_BYTES || g > MAX_RECORD_BYTES {
        return false;
    }
    56 + t + g <= MAX_RECORD_BYTES
}

/// Reports whether the record built from this payload will fit the capacity
/// ceiling, so that a caller can test [`maintenance_payload_fits`] before
/// creating or updating.
pub fn maintenance_payload_within_capacity(p: &MaintenanceRequestPayload) -> (r: bool)
    ensures
        r == maintenance_payload_fits(p@),
{
    let d = utf8_len(p.description.as_str());
    let s = utf8_len(p.status.as_str());
    let pr = utf8_len(p.priority.as_str());
    if d > MAX_RECORD_BYTES || s > MAX_RECORD_BYTES || pr > MAX_RECORD_BYTES {
        return false;
    }
    36 + d + s + pr <= MAX_RECORD_BYTES
}

/// Compares a string's characters with a literal's.
fn str_eq(s: &String, lit: &str) -> (r: bool)
    ensures
        r == (s@ == lit@),
{
    *s == lit.to_owned()
}

/// Validates the caller-supplied fields of a lease agreement: the tenant must
/// be named and the start date must lie strictly before the end date.
pub fn validate_lease_agreement_payload(payload: &LeaseAgreementPayload) -> (r: Result<
    (),
    Error,
>)
    ensures
        r is Ok <==> lease_payload_valid(payload@),
        r matches Err(e) ==> e.kind() == ErrorKind::ValidationError,
{
    if payload.tenant.as_str().is_empty() {
        return Err(Error::validation_error("Tenant name is required"));
    }
    if payload.start_date >= payload.end_date {
        return Err(Error::validation_error("Invalid dates. Start date must be before end date"));
    }
    Ok(())
}

/// Validates the caller-supplied fields of a maintenance request: the status
/// must be "pending" or "completed".
pub fn validate_maintenance_request_payload(payload: &MaintenanceRequestPayload) -> (r: Result<
    (),
    Error,
>)
    ensures
        r is Ok <==> maintenance_payload_valid(payload@),
        r matches Err(e) ==> e.kind() == ErrorKind::ValidationError,
{
    if !str_eq(&payload.status, "pending") && !str_eq(&payload.status, "completed") {
        return Err(
            Error::validation_error("Invalid status. Status must be either 'pending' or 'completed'"),
        );
    }
    Ok(())
}

/// The registry: one shared persistent id allocator and the three entity
/// tables, all living in stable storage.
pub struct Registry {
    counter: CounterCell,
    properties: Table<Property>,
    leases: Table<LeaseAgreement>,
    maintenance: Table<MaintenanceRequest>,
}

impl View for Registry {
    type V = RegistryV;

    closed spec fn view(&self) -> RegistryV {
        RegistryV {
            next_id: counter_value(self.counter),
            properties: self.properties@,
            leases: self.leases@,
            maintenance: self.maintenance@,
        }
    }
}

impl Registry {
    /// Well-formed: the tables hold decodable records and the allocator
    /// dominates every stored id.
    pub closed spec fn wf(&self) -> bool {
        &&& self.properties.wf()
        &&& self.leases.wf()
        &&& self.maintenance.wf()
        &&& registry_inv(self@)
    }

    /// A well-formed registry satisfies the view-level invariant.
    pub proof fn lemma_wf_inv(&self)
        requires
            self.wf(),
        ensures
            registry_inv(self@),
    {
    }

    /// Loads the registry from the process's stable storage: the persistent
    /// counter and the three tables, carried across restarts; fresh storage
    /// loads as the counter at zero over empty tables. Returns nothing when
    /// a stored entry does not decode to a record carrying its own id below
    /// the counter: such a state is storage corruption, which callers treat
    /// as fatal.
    pub fn init() -> (r: Option<Registry>)
        ensures
            r matches Some(reg) ==> reg.wf(),
    {
        let (counter, props_store, leases_store, maint_store) = storage_init();
        let bound = counter_get(&counter);
        if !store_sound::<Property>(&props_store, bound) {
            return None;
        }
        if !store_sound::<LeaseAgreement>(&leases_store, bound) {
            return None;
        }
        if !store_sound::<MaintenanceRequest>(&maint_store, bound) {
            return None;
        }
        let ghost pc = byte_table_contents(props_store);
        let ghost lc = byte_table_contents(leases_store);
        let ghost mc = byte_table_contents(maint_store);
        let reg = Registry {
            counter,
            properties: Table::from_store(props_store),
            leases: Table::from_store(leases_store),
            maintenance: Table::from_store(maint_store),
        };
        proof {
            assert(reg@.next_id == bound);
            assert forall|k: u64| #[trigger] reg@.properties.contains_key(k) implies k
                < reg@.next_id && reg@.properties[k].id == k by {
                assert(pc.contains_key(k));
                assert(entry_sound::<Property>(pc[k], k, bound));
                assert(<Property as Record>::dec(pc[k]) == Some(reg@.properties[k]));
            }
            assert forall|k: u64| #[trigger] reg@.leases.contains_key(k) implies k < reg@.next_id
                && reg@.leases[k].id == k by {
                assert(lc.contains_key(k));
                assert(entry_sound::<LeaseAgreement>(lc[k], k, bound));
                assert(<LeaseAgreement as Record>::dec(lc[k]) == Some(reg@.leases[k]));
            }
            assert forall|k: u64| #[trigger] reg@.maintenance.contains_key(k) implies k
                < reg@.next_id && reg@.maintenance[k].id == k by {
                assert(mc.contains_key(k));
                assert(entry_sound::<MaintenanceRequest>(mc[k], k, bound));
                assert(<MaintenanceRequest as Record>::dec(mc[k]) == Some(reg@.maintenance[k]));
            }
        }
        Some(reg)
    }

    /// The id the allocator will hand out next; every id allocated so far
    /// lies strictly below it.
    pub fn peek_next_id(&self) -> (r: u64)
        ensures
            r == self@.next_id,
    {
        counter_get(&self.counter)
    }

    /// Allocates the next id: returns the counter's value, then increments
    /// the stored state by one.
    fn next_id(&mut self) -> (r: u64)
        requires
            old(self)@.next_id < u64::MAX,
        ensures
            r == old(self)@.next_id,
            final(self)@.next_id == old(self)@.next_id + 1,
            final(self)@.properties == old(self)@.properties,
            final(self)@.leases == old(self)@.leases,
            final(self)@.maintenance == old(self)@.maintenance,
            final(self).properties == old(self).properties,
            final(self).leases == old(self).leases,
            final(self).maintenance == old(self).maintenance,
    {
        let current = counter_get(&self.counter);
        counter_set(&mut self.counter, current + 1);
        current
    }

    /// Creates a property: rejects an empty address or owner, allocates the
    /// next id, stamps the creation time, stores the record, and returns a
    /// copy of what was stored.
    pub fn create_property(&mut self, payload: PropertyPayload, now_ns: u64) -> (r: Result<
        Property,
        Error,
    >)
        requires
            old(self).wf(),
            old(self)@.next_id < u64::MAX,
            property_payload_fits(payload@),
        ensures
            final(self).wf(),
            match r {
                Ok(rec) => {
                    &&& property_payload_valid(payload@)
                    &&& rec@ == (PropertyV {
                        id: old(self)@.next_id,
                        address: payload@.address,
                        owner: payload@.owner,
                        valuation_bits: payload@.valuation_bits,
                        status: payload@.status,
                        created_at: now_ns / NANOS_PER_SEC,
                    })
                    &&& final(self)@.next_id == old(self)@.next_id + 1
                    &&& final(self)@.properties == old(self)@.properties.insert(rec@.id, rec@)
                    &&& final(self)@.leases == old(self)@.leases
                    &&& final(self)@.maintenance == old(self)@.maintenance
                },
                Err(e) => {
                    &&& property_create_rejection(payload@) == Some(e.kind())
                    &&& final(self)@ == old(self)@
                },
            },
    {
        if payload.address.as_str().is_empty() || payload.owner.as_str().is_empty() {
            return Err(Error::validation_error("Address and owner are required"));
        }
        let id = self.next_id();
        let rec = Property::new(
            id,
            payload.address,
            payload.owner,
            payload.valuation_bits,
            payload.status,
            now_ns,
        );
        proof {
            lemma_enc_property_len(rec@);
        }
        self.properties.insert(id, &rec);
        Ok(rec)
    }

    /// Overwrites every caller-settable field of the property stored under
    /// `id`, preserving its id and creation time. Update runs no payload
    /// validation: an acknowledged asymmetry with create.
    pub fn update_property(&mut self, id: u64, payload: PropertyPayload) -> (r: Result<
        Property,
        Error,
    >)
        requires
            old(self).wf(),
            property_payload_fits(payload@),
        ensures
            final(self).wf(),
            match r {
                Ok(rec) => {
                    &&& old(self)@.properties.contains_key(id)
                    &&& rec@ == (PropertyV {
                        id,
                        address: payload@.address,
                        owner: payload@.owner,
                        valuation_bits: payload@.valuation_bits,
                        status: payload@.status,
                        created_at: old(self)@.properties[id].created_at,
                    })
                    &&& final(self)@.properties == old(self)@.properties.insert(id, rec@)
                    &&& final(self)@.next_id == old(self)@.next_id
                    &&& final(self)@.leases == old(self)@.leases
                    &&& final(self)@.maintenance == old(self)@.maintenance
                },
                Err(e) => {
                    &&& !old(self)@.properties.contains_key(id)
                    &&& e.kind() == ErrorKind::NotFound
                    &&& final(self)@ == old(self)@
                },
            },
    {
        let existing = match self.properties.get(id) {
            Some(t) => t,
            None => { return Err(Error::not_found("Property not found")) },
        };
        let rec = Property {
            id,
            address: payload.address,
            owner: payload.owner,
            valuation_bits: payload.valuation_bits,
            status: payload.status,
            created_at: existing.created_at,
        };
        proof {
            lemma_enc_property_len(rec@);
        }
        self.properties.insert(id, &rec);
        proof {
            assert forall|k: u64| #[trigger] self@.properties.contains_key(k) implies k
                < self@.next_id && self@.properties[k].id == k by {
                if k != id {
                    assert(old(self)@.properties.contains_key(k));
                }
            }
            assert(self@.leases == old(self)@.leases && self@.maintenance == old(self)@.maintenance
                && self@.next_id == old(self)@.next_id);
            assert(forall|k: u64| #[trigger] self@.leases.contains_key(k) ==> k < self@.next_id
                && self@.leases[k].id == k);
            assert(forall|k: u64| #[trigger] self@.maintenance.contains_key(k) ==> k
                < self@.next_id && self@.maintenance[k].id == k);
        }
        Ok(rec)
    }

    /// Deletes the property stored under `id`.
    pub fn delete_property(&mut self, id: u64) -> (r: Result<(), Error>)
        requires
            old(self).wf(),
        ensures
            final(self).wf(),
            match r {
                Ok(_) => {
                    &&& old(self)@.properties.contains_key(id)
                    &&& final(self)@.properties == old(self)@.properties.remove(id)
                    &&& final(self)@.next_id == old(self)@.next_id
                    &&& final(self)@.leases == old(self)@.leases
                    &&& final(self)@.maintenance == old(self)@.maintenance
                },
                Err(e) => {
                    &&& !old(self)@.properties.contains_key(id)
                    &&& e.kind() == ErrorKind::NotFound
                    &&& final(self)@ == old(self)@
                },
            },
    {
        let was_there = self.properties.remove(id);
        proof {
            assert forall|k: u64| #[trigger] self@.properties.contains_key(k) implies k
                < self@.next_id && self@.properties[k].id == k by {
                assert(old(self)@.properties.contains_key(k));
            }
            assert(self@.leases == old(self)@.leases && self@.maintenance == old(self)@.maintenance
                && self@.next_id == old(self)@.next_id);
            assert(forall|k: u64| #[trigger] self@.leases.contains_key(k) ==> k < self@.next_id
                && self@.leases[k].id == k);
            assert(forall|k: u64| #[trigger] self@.maintenance.contains_key(k) ==> k < self@.next_id
                && self@.maintenance[k].id == k);
        }
        if was_there {
            Ok(())
        } else {
            proof {
                assert(old(self)@.properties.remove(id) =~= old(self)@.properties);
            }
            Err(Error::not_found("Property not found"))
        }
    }

    /// The property stored under `id`.
    pub fn get_property(&self, id: u64) -> (r: Result<Property, Error>)
        requires
            self.wf(),
        ensures
            match r {
                Ok(rec) => self@.properties.contains_key(id) && rec@ == self@.properties[id],
                Err(e) => !self@.properties.contains_key(id) && e.kind() == ErrorKind::NotFound,
            },
    {
        match self.properties.get(id) {
            Some(t) => Ok(t),
            None => Err(Error::not_found("Property not found")),
        }
    }

    /// Every property in ascending id order; an empty table reports
    /// `NotFound`, the registry's empty-collection-as-error convention.
    pub fn get_all_properties(&self) -> (r: Result<Vec<Property>, Error>)
        requires
            self.wf(),
        ensures
            match r {
                Ok(v) => {
                    &&& v@.len() > 0
                    &&& forall|k: int|
                        #![auto]
                        0 <= k < v@.len() ==> self@.properties.contains_key(v@[k]@.id) && v@[k]@
                            == self@.properties[v@[k]@.id]
                    &&& forall|id: u64|
                        #![auto]
                        self@.properties.contains_key(id) ==> exists|k: int|
                            0 <= k < v@.len() && v@[k]@.id == id
                    &&& forall|k1: int, k2: int|
                        #![auto]
                        0 <= k1 < k2 < v@.len() ==> v@[k1]@.id < v@[k2]@.id
                },
                Err(e) => {
                    &&& self@.properties.dom() == (Set::<u64>::empty())
                    &&& e.kind() == ErrorKind::NotFound
                },
            },
    {
        proof {
            assert forall|k: u64| #[trigger] self.properties@.contains_key(k) implies <Property as Record>::key(
                self.properties@[k],
            ) == k by {
                assert(self@.properties.contains_key(k));
            }
        }
        self.properties.list_all("No properties found.")
    }

    /// Creates a lease agreement: validates the payload, requires the
    /// referenced property to exist, allocates the next id, stamps the
    /// creation time, stores the record, and returns a copy of it.
    pub fn create_lease_agreement(&mut self, payload: LeaseAgreementPayload, now_ns: u64) -> (r:
        Result<LeaseAgreement, Error>)
        requires
            old(self).wf(),
            old(self)@.next_id < u64::MAX,
            lease_payload_fits(payload@),
        ensures
            final(self).wf(),
            match r {
                Ok(rec) => {
                    &&& lease_payload_valid(payload@)
                    &&& old(self)@.properties.contains_key(payload@.property_id)
                    &&& rec@ == (LeaseAgreementV {
                        id: old(self)@.next_id,
                        property_id: payload@.property_id,
                        tenant: payload@.tenant,
                        rent_bits: payload@.rent_bits,
                        start_date: payload@.start_date,
                        end_date: payload@.end_date,
                        created_at: now_ns / NANOS_PER_SEC,
                        digital_signature: payload@.digital_signature,
                    })
                    &&& final(self)@.next_id == old(self)@.next_id + 1
                    &&& final(self)@.leases == old(self)@.leases.insert(rec@.id, rec@)
                    &&& final(self)@.properties == old(self)@.properties
                    &&& final(self)@.maintenance == old(self)@.maintenance
                },
                Err(e) => {
                    &&& lease_create_rejection(old(self)@, payload@) == Some(e.kind())
                    &&& final(self)@ == old(self)@
                },
            },
    {
        match validate_lease_agreement_payload(&payload) {
            Ok(_) => (),
            Err(e) => { return Err(e) },
        }
        if !self.properties.contains(payload.property_id) {
            return Err(Error::not_found("Property not found"));
        }
        let id = self.next_id();
        let rec = LeaseAgreement::new(
            id,
            payload.property_id,
            payload.tenant,
            payload.rent_bits,
            payload.start_date,
            payload.end_date,
            payload.digital_signature,
            now_ns,
        );
        proof {
            lemma_enc_lease_len(rec@);
        }
        self.leases.insert(id, &rec);
        Ok(rec)
    }

    /// Overwrites every caller-settable field of the lease agreement stored
    /// under `id`, preserving its id and creation time. Update runs no
    /// payload validation: an acknowledged asymmetry with create.
    pub fn update_lease_agreement(&mut self, id: u64, payload: LeaseAgreementPayload) -> (r:
        Result<LeaseAgreement, Error>)
        requires
            old(self).wf(),
            lease_payload_fits(payload@),
        ensures
            final(self).wf(),
            match r {
                Ok(rec) => {
                    &&& old(self)@.leases.contains_key(id)
                    &&& rec@ == (LeaseAgreementV {
                        id,
                        property_id: payload@.property_id,
                        tenant: payload@.tenant,
                        rent_bits: payload@.rent_bits,
                        start_date: payload@.start_date,
                        end_date: payload@.end_date,
                        created_at: old(self)@.leases[id].created_at,
                        digital_signature: payload@.digital_signature,
                    })
                    &&& final(self)@.leases == old(self)@.leases.insert(id, rec@)
                    &&& final(self)@.next_id == old(self)@.next_id
                    &&& final(self)@.properties == old(self)@.properties
                    &&& final(self)@.maintenance == old(self)@.maintenance
                },
                Err(e) => {
                    &&& !old(self)@.leases.contains_key(id)
                    &&& e.kind() == ErrorKind::NotFound
                    &&& final(self)@ == old(self)@
                },
            },
    {
        let existing = match self.leases.get(id) {
            Some(t) => t,
            None => { return Err(Error::not_found("Lease agreement not found")) },
        };
        let rec = LeaseAgreement {
            id,
            property_id: payload.property_id,
            tenant: payload.tenant,
            rent_bits: payload.rent_bits,
            start_date: payload.start_date,
            end_date: payload.end_date,
            created_at: existing.created_at,
            digital_signature: payload.digital_signature,
        };
        proof {
            lemma_enc_lease_len(rec@);
        }
        self.leases.insert(id, &rec);
        proof {
            assert forall|k: u64| #[trigger] self@.leases.contains_key(k) implies k
                < self@.next_id && self@.leases[k].id == k by {
                if k != id {
                    assert(old(self)@.leases.contains_key(k));
                }
            }
            assert(self@.properties == old(self)@.properties && self@.maintenance == old(self)@.maintenance
                && self@.next_id == old(self)@.next_id);
            assert(forall|k: u64| #[trigger] self@.properties.contains_key(k) ==> k < self@.next_id
                && self@.properties[k].id == k);
            assert(forall|k: u64| #[trigger] self@.maintenance.contains_key(k) ==> k < self@.next_id
                && self@.maintenance[k].id == k);
        }
        Ok(rec)
    }

    /// Deletes the lease agreement stored under `id`.
    pub fn delete_lease_agreement(&mut self, id: u64) -> (r: Result<(), Error>)
        requires
            old(self).wf(),
        ensures
            final(self).wf(),
            match r {
                Ok(_) => {
                    &&& old(self)@.leases.contains_key(id)
                    &&& final(self)@.leases == old(self)@.leases.remove(id)
                    &&& final(self)@.next_id == old(self)@.next_id
                    &&& final(self)@.properties == old(self)@.properties
                    &&& final(self)@.maintenance == old(self)@.maintenance
                },
                Err(e) => {
                    &&& !old(self)@.leases.contains_key(id)
                    &&& e.kind() == ErrorKind::NotFound
                    &&& final(self)@ == old(self)@
                },
            },
    {
        let was_there = self.leases.remove(id);
        proof {
            assert forall|k: u64| #[trigger] self@.leases.contains_key(k) implies k
                < self@.next_id && self@.leases[k].id == k by {
                assert(old(self)@.leases.contains_key(k));
            }
            assert(self@.properties == old(self)@.properties && self@.maintenance == old(self)@.maintenance
                && self@.next_id == old(self)@.next_id);
            assert(forall|k: u64| #[trigger] self@.properties.contains_key(k) ==> k < self@.next_id
                && self@.properties[k].id == k);
            assert(forall|k: u64| #[trigger] self@.maintenance.contains_key(k) ==> k < self@.next_id
                && self@.maintenance[k].id == k);
        }
        if was_there {
            Ok(())
        } else {
            proof {
                assert(old(self)@.leases.remove(id) =~= old(self)@.leases);
            }
            Err(Error::not_found("Lease agreement not found"))
        }
    }

    /// The lease agreement stored under `id`.
    pub fn get_lease_agreement(&self, id: u64) -> (r: Result<LeaseAgreement, Error>)
        requires
            self.wf(),
        ensures
            match r {
                Ok(rec) => self@.leases.contains_key(id) && rec@ == self@.leases[id],
                Err(e) => !self@.leases.contains_key(id) && e.kind() == ErrorKind::NotFound,
            },
    {
        match self.leases.get(id) {
            Some(t) => Ok(t),
            None => Err(Error::not_found("Lease agreement not found")),
        }
    }

    /// Every lease agreement in ascending id order; an empty table reports
    /// `NotFound`.
    pub fn get_all_lease_agreements(&self) -> (r: Result<Vec<LeaseAgreement>, Error>)
        requires
            self.wf(),
        ensures
            match r {
                Ok(v) => {
                    &&& v@.len() > 0
                    &&& forall|k: int|
                        #![auto]
                        0 <= k < v@.len() ==> self@.leases.contains_key(v@[k]@.id) && v@[k]@
                            == self@.leases[v@[k]@.id]
                    &&& forall|id: u64|
                        #![auto]
                        self@.leases.contains_key(id) ==> exists|k: int|
                            0 <= k < v@.len() && v@[k]@.id == id
                    &&& forall|k1: int, k2: int|
                        #![auto]
                        0 <= k1 < k2 < v@.len() ==> v@[k1]@.id < v@[k2]@.id
                },
                Err(e) => {
                    &&& self@.leases.dom() == (Set::<u64>::empty())
                    &&& e.kind() == ErrorKind::NotFound
                },
            },
    {
        proof {
            assert forall|k: u64| #[trigger] self.leases@.contains_key(k) implies <LeaseAgreement as Record>::key(
                self.leases@[k],
            ) == k by {
                assert(self@.leases.contains_key(k));
            }
        }
        self.leases.list_all("No lease agreements found.")
    }

    /// Creates a maintenance request: validates the status, requires the
    /// referenced property to exist, allocates the next id, stamps the
    /// creation time, stores the record, and returns a copy of it.
    pub fn create_maintenance_request(
        &mut self,
        payload: MaintenanceRequestPayload,
        now_ns: u64,
    ) -> (r: Result<MaintenanceRequest, Error>)
        requires
            old(self).wf(),
            old(self)@.next_id < u64::MAX,
            maintenance_payload_fits(payload@),
        ensures
            final(self).wf(),
            match r {
                Ok(rec) => {
                    &&& maintenance_payload_valid(payload@)
                    &&& old(self)@.properties.contains_key(payload@.property_id)
                    &&& rec@ == (MaintenanceRequestV {
                        id: old(self)@.next_id,
                        property_id: payload@.property_id,
                        description: payload@.description,
                        status: payload@.status,
                        created_at: now_ns / NANOS_PER_SEC,
                        priority: payload@.priority,
                    })
                    &&& final(self)@.next_id == old(self)@.next_id + 1
                    &&& final(self)@.maintenance == old(self)@.maintenance.insert(rec@.id, rec@)
                    &&& final(self)@.properties == old(self)@.properties
                    &&& final(self)@.leases == old(self)@.leases
                },
                Err(e) => {
                    &&& maintenance_create_rejection(old(self)@, payload@) == Some(e.kind())
                    &&& final(self)@ == old(self)@
                },
            },
    {
        match validate_maintenance_request_payload(&payload) {
            Ok(_) => (),
            Err(e) => { return Err(e) },
        }
        if !self.properties.contains(payload.property_id) {
            return Err(Error::not_found("Property not found"));
        }
        let id = self.next_id();
        let rec = MaintenanceRequest::new(
            id,
            payload.property_id,
            payload.description,
            payload.status,
            payload.priority,
            now_ns,
        );
        proof {
            lemma_enc_maintenance_len(rec@);
        }
        self.maintenance.insert(id, &rec);
        Ok(rec)
    }

    /// Overwrites every caller-settable field of the maintenance request
    /// stored under `id`, preserving its id and creation time. Update runs
    /// no payload validation — not even the status rule of create — an
    /// acknowledged asymmetry with create, kept deliberately.
    pub fn update_maintenance_request(
        &mut self,
        id: u64,
        payload: MaintenanceRequestPayload,
    ) -> (r: Result<MaintenanceRequest, Error>)
        requires
            old(self).wf(),
            maintenance_payload_fits(payload@),
        ensures
            final(self).wf(),
            match r {
                Ok(rec) => {
                    &&& old(self)@.maintenance.contains_key(id)
                    &&& rec@ == (MaintenanceRequestV {
                        id,
                        property_id: payload@.property_id,
                        description: payload@.description,
                        status: payload@.status,
                        created_at: old(self)@.maintenance[id].created_at,
                        priority: payload@.priority,
                    })
                    &&& final(self)@.maintenance == old(self)@.maintenance.insert(id, rec@)
                    &&& final(self)@.next_id == old(self)@.next_id
                    &&& final(self)@.properties == old(self)@.properties
                    &&& final(self)@.leases == old(self)@.leases
                },
                Err(e) => {
                    &&& !old(self)@.maintenance.contains_key(id)
                    &&& e.kind() == ErrorKind::NotFound
                    &&& final(self)@ == old(self)@
                },
            },
    {
        let existing = match self.maintenance.get(id) {
            Some(t) => t,
            None => { return Err(Error::not_found("Maintenance request not found")) },
        };
        let rec = MaintenanceRequest {
            id,
            property_id: payload.property_id,
            description: payload.description,
            status: payload.status,
            created_at: existing.created_at,
            priority: payload.priority,
        };
        proof {
            lemma_enc_maintenance_len(rec@);
        }
        self.maintenance.insert(id, &rec);
        proof {
            assert forall|k: u64| #[trigger] self@.maintenance.contains_key(k) implies k
                < self@.next_id && self@.maintenance[k].id == k by {
                if k != id {
                    assert(old(self)@.maintenance.contains_key(k));
                }
            }
            assert(self@.properties == old(self)@.properties && self@.leases == old(self)@.leases
                && self@.next_id == old(self)@.next_id);
            assert(forall|k: u64| #[trigger] self@.properties.contains_key(k) ==> k < self@.next_id
                && self@.properties[k].id == k);
            assert(forall|k: u64| #[trigger] self@.leases.contains_key(k) ==> k < self@.next_id
                && self@.leases[k].id == k);
        }
        Ok(rec)
    }

    /// Deletes the maintenance request stored under `id`.
    pub fn delete_maintenance_request(&mut self, id: u64) -> (r: Result<(), Error>)
        requires
            old(self).wf(),
        ensures
            final(self).wf(),
            match r {
                Ok(_) => {
                    &&& old(self)@.maintenance.contains_key(id)
                    &&& final(self)@.maintenance == old(self)@.maintenance.remove(id)
                    &&& final(self)@.next_id == old(self)@.next_id
                    &&& final(self)@.properties == old(self)@.properties
                    &&& final(self)@.leases == old(self)@.leases
                },
                Err(e) => {
                    &&& !old(self)@.maintenance.contains_key(id)
                    &&& e.kind() == ErrorKind::NotFound
                    &&& final(self)@ == old(self)@
                },
            },
    {
        let was_there = self.maintenance.remove(id);
        proof {
            assert forall|k: u64| #[trigger] self@.maintenance.contains_key(k) implies k
                < self@.next_id && self@.maintenance[k].id == k by {
                assert(old(self)@.maintenance.contains_key(k));
            }
            assert(self@.properties == old(self)@.properties && self@.leases == old(self)@.leases
                && self@.next_id == old(self)@.next_id);
            assert(forall|k: u64| #[trigger] self@.properties.contains_key(k) ==> k < self@.next_id
                && self@.properties[k].id == k);
            assert(forall|k: u64| #[trigger] self@.leases.contains_key(k) ==> k < self@.next_id
                && self@.leases[k].id == k);
        }
        if was_there {
            Ok(())
        } else {
            proof {
                assert(old(self)@.maintenance.remove(id) =~= old(self)@.maintenance);
            }
            Err(Error::not_found("Maintenance request not found"))
        }
    }

    /// The maintenance request stored under `id`.
    pub fn get_maintenance_request(&self, id: u64) -> (r: Result<MaintenanceRequest, Error>)
        requires
            self.wf(),
        ensures
            match r {
                Ok(rec) => self@.maintenance.contains_key(id) && rec@ == self@.maintenance[id],
                Err(e) => !self@.maintenance.contains_key(id) && e.kind() == ErrorKind::NotFound,
            },
    {
        match self.maintenance.get(id) {
            Some(t) => Ok(t),
            None => Err(Error::not_found("Maintenance request not found")),
        }
    }

    /// Every maintenance request in ascending id order; an empty table
    /// reports `NotFound`.
    pub fn get_all_maintenance_requests(&self) -> (r: Result<Vec<MaintenanceRequest>, Error>)
        requires
            self.wf(),
        ensures
            match r {
                Ok(v) => {
                    &&& v@.len() > 0
                    &&& forall|k: int|
                        #![auto]
                        0 <= k < v@.len() ==> self@.maintenance.contains_key(v@[k]@.id) && v@[k]@
                            == self@.maintenance[v@[k]@.id]
                    &&& forall|id: u64|
                        #![auto]
                        self@.maintenance.contains_key(id) ==> exists|k: int|
                            0 <= k < v@.len() && v@[k]@.id == id
                    &&& forall|k1: int, k2: int|
                        #![auto]
                        0 <= k1 < k2 < v@.len() ==> v@[k1]@.id < v@[k2]@.id
                },
                Err(e) => {
                    &&& self@.maintenance.dom() == (Set::<u64>::empty())
                    &&& e.kind() == ErrorKind::NotFound
                },
            },
    {
        proof {
            assert forall|k: u64| #[trigger] self.maintenance@.contains_key(k) implies <MaintenanceRequest as Record>::key(
                self.maintenance@[k],
            ) == k by {
                assert(self@.maintenance.contains_key(k));
            }
        }
        self.maintenance.list_all("No maintenance requests found.")
    }
}

} // verus!
