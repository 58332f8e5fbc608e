use vstd::prelude::*;

verus! {

/// The host clock hands out nanoseconds; records store seconds.
pub const NANOS_PER_SEC: u64 = 1_000_000_000;

/// A property record. `valuation_bits` carries the IEEE-754 bit pattern of
/// the valuation, so that the core itself stays free of floating point; the
/// boundary that talks to callers converts in both directions.
#[derive(Debug)]
pub struct Property {
    pub id: u64,
    pub address: String,
    pub owner: String,
    pub valuation_bits: u64,
    pub status: String,
    pub created_at: u64,
}

/// The mathematical value of a [`Property`].
pub ghost struct PropertyV {
    pub id: u64,
    pub address: Seq<char>,
    pub owner: Seq<char>,
    pub valuation_bits: u64,
    pub status: Seq<char>,
    pub created_at: u64,
}

impl View for Property {
    type V = PropertyV;

    open spec fn view(&self) -> PropertyV {
        PropertyV {
            id: self.id,
            address: self.address@,
            owner: self.owner@,
            valuation_bits: self.valuation_bits,
            status: self.status@,
            created_at: self.created_at,
        }
    }
}

impl Property {
    /// Builds the record for a fresh id, stamping `created_at` with the host
    /// time converted from nanoseconds to seconds.
    pub fn new(
        id: u64,
        address: String,
        owner: String,
        valuation_bits: u64,
        status: String,
        now_ns: u64,
    ) -> (r: Self)
        ensures
            r@ == (PropertyV {
                id,
                address: address@,
                owner: owner@,
                valuation_bits,
                status: status@,
                created_at: now_ns / NANOS_PER_SEC,
            }),
    {
        Self { id, address, owner, valuation_bits, status, created_at: now_ns / NANOS_PER_SEC }
    }
}

/// A lease agreement. `property_id` is a weak reference to a property,
/// checked at creation time only. `rent_bits` carries the IEEE-754 bit
/// pattern of the rent.
#[derive(Debug)]
pub struct LeaseAgreement {
    pub id: u64,
    pub property_id: u64,
    pub tenant: String,
    pub rent_bits: u64,
    pub start_date: u64,
    pub end_date: u64,
    pub created_at: u64,
    pub digital_signature: String,
}

/// The mathematical value of a [`LeaseAgreement`].
pub ghost struct LeaseAgreementV {
    pub id: u64,
    pub property_id: u64,
    pub tenant: Seq<char>,
    pub rent_bits: u64,
    pub start_date: u64,
    pub end_date: u64,
    pub created_at: u64,
    pub digital_signature: Seq<char>,
}

impl View for LeaseAgreement {
    type V = LeaseAgreementV;

    open spec fn view(&self) -> LeaseAgreementV {
        LeaseAgreementV {
            id: self.id,
            property_id: self.property_id,
            tenant: self.tenant@,
            rent_bits: self.rent_bits,
            start_date: self.start_date,
            end_date: self.end_date,
            created_at: self.created_at,
            digital_signature: self.digital_signature@,
        }
    }
}

impl LeaseAgreement {
    /// Builds the record for a fresh id, stamping `created_at` with the host
    /// time converted from nanoseconds to seconds.
    pub fn new(
        id: u64,
        property_id: u64,
        tenant: String,
        rent_bits: u64,
        start_date: u64,
        end_date: u64,
        digital_signature: String,
        now_ns: u64,
    ) -> (r: Self)
        ensures
            r@ == (LeaseAgreementV {
                id,
                property_id,
                tenant: tenant@,
                rent_bits,
                start_date,
                end_date,
                created_at: now_ns / NANOS_PER_SEC,
                digital_signature: digital_signature@,
            }),
    {
        Self {
            id,
            property_id,
            tenant,
            rent_bits,
            start_date,
            end_date,
            created_at: now_ns / NANOS_PER_SEC,
            digital_signature,
        }
    }
}

/// A maintenance request. `property_id` is a weak reference to a property,
/// checked at creation time only.
#[derive(Debug)]
pub struct MaintenanceRequest {
    pub id: u64,
    pub property_id: u64,
    pub description: String,
    pub status: String,
    pub created_at: u64,
    pub priority: String,
}

/// The mathematical value of a [`MaintenanceRequest`].
pub ghost struct MaintenanceRequestV {
    pub id: u64,
    pub property_id: u64,
    pub description: Seq<char>,
    pub status: Seq<char>,
    pub created_at: u64,
    pub priority: Seq<char>,
}

impl View for MaintenanceRequest {
    type V = MaintenanceRequestV;

    open spec fn view(&self) -> MaintenanceRequestV {
        MaintenanceRequestV {
            id: self.id,
            property_id: self.property_id,
            description: self.description@,
            status: self.status@,
            created_at: self.created_at,
            priority: self.priority@,
        }
    }
}

impl MaintenanceRequest {
    /// Builds the record for a fresh id, stamping `created_at` with the host
    /// time converted from nanoseconds to seconds.
    pub fn new(
        id: u64,
        property_id: u64,
        description: String,
        status: String,
        priority: String,
        now_ns: u64,
    ) -> (r: Self)
        ensures
            r@ == (MaintenanceRequestV {
                id,
                property_id,
                description: description@,
                status: status@,
                created_at: now_ns / NANOS_PER_SEC,
                priority: priority@,
            }),
    {
        Self {
            id,
            property_id,
            description,
            status,
            created_at: now_ns / NANOS_PER_SEC,
            priority,
        }
    }
}

/// The caller-supplied fields of a property.
pub struct PropertyPayload {
    pub address: String,
    pub owner: String,
    pub valuation_bits: u64,
    pub status: String,
}

/// The mathematical value of a [`PropertyPayload`].
pub ghost struct PropertyPayloadV {
    pub address: Seq<char>,
    pub owner: Seq<char>,
    pub valuation_bits: u64,
    pub status: Seq<char>,
}

impl View for PropertyPayload {
    type V = PropertyPayloadV;

    open spec fn view(&self) -> PropertyPayloadV {
        PropertyPayloadV {
            address: self.address@,
            owner: self.owner@,
            valuation_bits: self.valuation_bits,
            status: self.status@,
        }
    }
}

/// The caller-supplied fields of a lease agreement.
pub struct LeaseAgreementPayload {
    pub property_id: u64,
    pub tenant: String,
    pub rent_bits: u64,
    pub start_date: u64,
    pub end_date: u64,
    pub digital_signature: String,
}

/// The mathematical value of a [`LeaseAgreementPayload`].
pub ghost struct LeaseAgreementPayloadV {
    pub property_id: u64,
    pub tenant: Seq<char>,
    pub rent_bits: u64,
    pub start_date: u64,
    pub end_date: u64,
    pub digital_signature: Seq<char>,
}

impl View for LeaseAgreementPayload {
    type V = LeaseAgreementPayloadV;

    open spec fn view(&self) -> LeaseAgreementPayloadV {
        LeaseAgreementPayloadV {
            property_id: self.property_id,
            tenant: self.tenant@,
            rent_bits: self.rent_bits,
            start_date: self.start_date,
            end_date: self.end_date,
            digital_signature: self.digital_signature@,
        }
    }
}

/// The caller-supplied fields of a maintenance request.
pub struct MaintenanceRequestPayload {
    pub property_id: u64,
    pub description: String,
    pub status: String,
    pub priority: String,
}

/// The mathematical value of a [`MaintenanceRequestPayload`].
pub ghost struct MaintenanceRequestPayloadV {
    pub property_id: u64,
    pub description: Seq<char>,
    pub status: Seq<char>,
    pub priority: Seq<char>,
}

impl View for MaintenanceRequestPayload {
    type V = MaintenanceRequestPayloadV;

    open spec fn view(&self) -> MaintenanceRequestPayloadV {
        MaintenanceRequestPayloadV {
            property_id: self.property_id,
            description: self.description@,
            status: self.status@,
            priority: self.priority@,
        }
    }
}

} // verus!
