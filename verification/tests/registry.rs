use estate_registry::errors::Error;
use estate_registry::ops::Registry;
use estate_registry::records::{
    LeaseAgreementPayload, MaintenanceRequestPayload, PropertyPayload,
};

const NOW_NS: u64 = 1_700_000_000_123_456_789;
const NOW_S: u64 = 1_700_000_000;

fn property_payload(address: &str, owner: &str, valuation: f64, status: &str) -> PropertyPayload {
    PropertyPayload {
        address: address.to_string(),
        owner: owner.to_string(),
        valuation_bits: valuation.to_bits(),
        status: status.to_string(),
    }
}

fn lease_payload(property_id: u64, tenant: &str, start: u64, end: u64) -> LeaseAgreementPayload {
    LeaseAgreementPayload {
        property_id,
        tenant: tenant.to_string(),
        rent_bits: 1500.0f64.to_bits(),
        start_date: start,
        end_date: end,
        digital_signature: "sig".to_string(),
    }
}

fn maintenance_payload(property_id: u64, status: &str) -> MaintenanceRequestPayload {
    MaintenanceRequestPayload {
        property_id,
        description: "leaky faucet".to_string(),
        status: status.to_string(),
        priority: "high".to_string(),
    }
}

#[test]
fn property_lifecycle_scenario() {
    let mut reg = Registry::init().unwrap();
    let created = reg
        .create_property(
            property_payload("123 Main St", "Alice", 500000.0, "available"),
            NOW_NS,
        )
        .unwrap();
    assert_eq!(created.id, 0);
    assert_eq!(created.address, "123 Main St");
    assert_eq!(created.owner, "Alice");
    assert_eq!(f64::from_bits(created.valuation_bits), 500000.0);
    assert_eq!(created.status, "available");
    assert_eq!(created.created_at, NOW_S);

    let updated = reg
        .update_property(0, property_payload("123 Main St", "Bob", 600000.0, "available"))
        .unwrap();
    assert_eq!(updated.owner, "Bob");
    assert_eq!(f64::from_bits(updated.valuation_bits), 600000.0);
    assert_eq!(updated.id, 0);
    assert_eq!(updated.created_at, NOW_S);

    assert!(reg.delete_property(0).is_ok());
    let err = reg.get_all_properties().unwrap_err();
    assert!(matches!(err, Error::NotFound { .. }));
}

#[test]
fn create_assigns_increasing_ids_across_tables() {
    let mut reg = Registry::init().unwrap();
    let p0 = reg
        .create_property(property_payload("1 First Ave", "Ann", 1.0, "listed"), NOW_NS)
        .unwrap();
    let p1 = reg
        .create_property(property_payload("2 Second Ave", "Ben", 2.0, "listed"), NOW_NS)
        .unwrap();
    let lease = reg
        .create_lease_agreement(lease_payload(p0.id, "Cara", 10, 20), NOW_NS)
        .unwrap();
    let req = reg
        .create_maintenance_request(maintenance_payload(p1.id, "pending"), NOW_NS)
        .unwrap();
    assert_eq!(p0.id, 0);
    assert_eq!(p1.id, 1);
    assert_eq!(lease.id, 2);
    assert_eq!(req.id, 3);

    let all = reg.get_all_properties().unwrap();
    assert_eq!(all.len(), 2);
    assert!(all.iter().any(|p| p.id == p0.id && p.owner == "Ann"));
    assert!(all.iter().any(|p| p.id == p1.id && p.owner == "Ben"));
}

#[test]
fn list_all_is_sorted_by_id() {
    let mut reg = Registry::init().unwrap();
    for owner in ["a", "b", "c", "d"] {
        reg.create_property(property_payload("somewhere", owner, 1.0, "x"), NOW_NS)
            .unwrap();
    }
    reg.delete_property(1).unwrap();
    reg.create_property(property_payload("somewhere", "e", 1.0, "x"), NOW_NS)
        .unwrap();
    let all = reg.get_all_properties().unwrap();
    let ids: Vec<u64> = all.iter().map(|p| p.id).collect();
    assert_eq!(ids, vec![0, 2, 3, 4]);
}

#[test]
fn update_shows_new_values_and_keeps_created_at() {
    let mut reg = Registry::init().unwrap();
    reg.create_property(property_payload("10 Elm St", "Olive", 5.0, "open"), NOW_NS)
        .unwrap();
    let later: u64 = NOW_NS + 50_000_000_000;
    let lease = reg
        .create_lease_agreement(lease_payload(0, "Tina", 100, 200), later)
        .unwrap();
    assert_eq!(lease.created_at, NOW_S + 50);

    let updated = reg
        .update_lease_agreement(lease.id, lease_payload(0, "Tom", 150, 250))
        .unwrap();
    assert_eq!(updated.tenant, "Tom");
    assert_eq!(updated.start_date, 150);
    assert_eq!(updated.end_date, 250);
    assert_eq!(updated.id, lease.id);
    assert_eq!(updated.created_at, NOW_S + 50);

    let got = reg.get_lease_agreement(lease.id).unwrap();
    assert_eq!(got.tenant, "Tom");
    assert_eq!(got.created_at, NOW_S + 50);
}

#[test]
fn update_skips_validation_by_design() {
    let mut reg = Registry::init().unwrap();
    reg.create_property(property_payload("10 Elm St", "Olive", 5.0, "open"), NOW_NS)
        .unwrap();
    let updated = reg.update_property(0, property_payload("", "", 5.0, "open")).unwrap();
    assert_eq!(updated.address, "");
    assert_eq!(updated.owner, "");

    reg.create_maintenance_request(maintenance_payload(0, "pending"), NOW_NS)
        .unwrap();
    let m = reg
        .update_maintenance_request(1, maintenance_payload(0, "not-a-real-status"))
        .unwrap();
    assert_eq!(m.status, "not-a-real-status");
}

#[test]
fn delete_then_get_reports_not_found() {
    let mut reg = Registry::init().unwrap();
    reg.create_property(property_payload("10 Elm St", "Olive", 5.0, "open"), NOW_NS)
        .unwrap();
    reg.create_property(property_payload("11 Elm St", "Pat", 6.0, "open"), NOW_NS)
        .unwrap();
    reg.delete_property(0).unwrap();
    assert!(matches!(reg.get_property(0), Err(Error::NotFound { .. })));
    let all = reg.get_all_properties().unwrap();
    assert!(all.iter().all(|p| p.id != 0));
    assert_eq!(all.len(), 1);
}

#[test]
fn delete_missing_id_reports_not_found() {
    let mut reg = Registry::init().unwrap();
    assert!(matches!(reg.delete_property(7), Err(Error::NotFound { .. })));
    assert!(matches!(reg.delete_lease_agreement(7), Err(Error::NotFound { .. })));
    assert!(matches!(reg.delete_maintenance_request(7), Err(Error::NotFound { .. })));
}

#[test]
fn update_missing_id_reports_not_found() {
    let mut reg = Registry::init().unwrap();
    let r = reg.update_property(3, property_payload("a", "b", 1.0, "c"));
    assert!(matches!(r, Err(Error::NotFound { .. })));
    let r = reg.update_lease_agreement(3, lease_payload(0, "t", 1, 2));
    assert!(matches!(r, Err(Error::NotFound { .. })));
    let r = reg.update_maintenance_request(3, maintenance_payload(0, "pending"));
    assert!(matches!(r, Err(Error::NotFound { .. })));
}

#[test]
fn empty_tables_report_not_found() {
    let reg = Registry::init().unwrap();
    assert!(matches!(reg.get_all_properties(), Err(Error::NotFound { .. })));
    assert!(matches!(reg.get_all_lease_agreements(), Err(Error::NotFound { .. })));
    assert!(matches!(reg.get_all_maintenance_requests(), Err(Error::NotFound { .. })));
}

#[test]
fn create_property_requires_address_and_owner() {
    let mut reg = Registry::init().unwrap();
    let r = reg.create_property(property_payload("", "Alice", 1.0, "open"), NOW_NS);
    assert!(matches!(r, Err(Error::ValidationError { .. })));
    let r = reg.create_property(property_payload("1 Main St", "", 1.0, "open"), NOW_NS);
    assert!(matches!(r, Err(Error::ValidationError { .. })));
    assert!(matches!(reg.get_all_properties(), Err(Error::NotFound { .. })));
}

#[test]
fn lease_with_missing_property_reports_not_found() {
    let mut reg = Registry::init().unwrap();
    let r = reg.create_lease_agreement(lease_payload(42, "Tina", 10, 20), NOW_NS);
    assert!(matches!(r, Err(Error::NotFound { .. })));
}

#[test]
fn maintenance_with_missing_property_reports_not_found() {
    let mut reg = Registry::init().unwrap();
    let r = reg.create_maintenance_request(maintenance_payload(42, "pending"), NOW_NS);
    assert!(matches!(r, Err(Error::NotFound { .. })));
}

#[test]
fn lease_with_reversed_dates_reports_validation_error() {
    let mut reg = Registry::init().unwrap();
    reg.create_property(property_payload("1 Main St", "Alice", 1.0, "open"), NOW_NS)
        .unwrap();
    let r = reg.create_lease_agreement(lease_payload(0, "Tina", 100, 50), NOW_NS);
    assert!(matches!(r, Err(Error::ValidationError { .. })));
    let r = reg.create_lease_agreement(lease_payload(0, "Tina", 100, 100), NOW_NS);
    assert!(matches!(r, Err(Error::ValidationError { .. })));
}

#[test]
fn lease_with_empty_tenant_reports_validation_error() {
    let mut reg = Registry::init().unwrap();
    reg.create_property(property_payload("1 Main St", "Alice", 1.0, "open"), NOW_NS)
        .unwrap();
    let r = reg.create_lease_agreement(lease_payload(0, "", 10, 20), NOW_NS);
    assert!(matches!(r, Err(Error::ValidationError { .. })));
}

#[test]
fn maintenance_status_must_be_pending_or_completed() {
    let mut reg = Registry::init().unwrap();
    reg.create_property(property_payload("1 Main St", "Alice", 1.0, "open"), NOW_NS)
        .unwrap();
    let r = reg.create_maintenance_request(maintenance_payload(0, "started"), NOW_NS);
    assert!(matches!(r, Err(Error::ValidationError { .. })));
    let done = reg
        .create_maintenance_request(maintenance_payload(0, "completed"), NOW_NS)
        .unwrap();
    assert_eq!(done.status, "completed");
}

#[test]
fn dangling_references_survive_property_deletion() {
    let mut reg = Registry::init().unwrap();
    reg.create_property(property_payload("1 Main St", "Alice", 1.0, "open"), NOW_NS)
        .unwrap();
    let lease = reg
        .create_lease_agreement(lease_payload(0, "Tina", 10, 20), NOW_NS)
        .unwrap();
    reg.delete_property(0).unwrap();
    let still_there = reg.get_lease_agreement(lease.id).unwrap();
    assert_eq!(still_there.property_id, 0);
}

#[test]
fn unauthorized_variant_carries_its_message() {
    let e = Error::Unauthorized { msg: "reserved".to_string() };
    assert_eq!(e.message().as_str(), "reserved");
}

#[test]
fn capacity_checks_match_record_size() {
    let small = property_payload("1 Main St", "Alice", 1.0, "open");
    assert!(estate_registry::ops::property_payload_within_capacity(&small));
    let big = property_payload(&"x".repeat(2000), "Alice", 1.0, "open");
    assert!(!estate_registry::ops::property_payload_within_capacity(&big));
    let lease_ok = lease_payload(0, "Tina", 1, 2);
    assert!(estate_registry::ops::lease_payload_within_capacity(&lease_ok));
    let m_ok = maintenance_payload(0, "pending");
    assert!(estate_registry::ops::maintenance_payload_within_capacity(&m_ok));
}

#[test]
fn get_returns_the_stored_record() {
    let mut reg = Registry::init().unwrap();
    let created = reg
        .create_property(property_payload("9 Oak Ln", "Omar", 3.5, "open"), NOW_NS)
        .unwrap();
    let got = reg.get_property(created.id).unwrap();
    assert_eq!(got.id, created.id);
    assert_eq!(got.address, "9 Oak Ln");
    assert_eq!(got.owner, "Omar");

    let m = reg
        .create_maintenance_request(maintenance_payload(created.id, "pending"), NOW_NS)
        .unwrap();
    let got = reg.get_maintenance_request(m.id).unwrap();
    assert_eq!(got.description, "leaky faucet");
    assert_eq!(got.priority, "high");
}

#[test]
fn payload_validation_runs_before_the_property_check() {
    let mut reg = Registry::init().unwrap();
    // The property is missing too, but the empty tenant is reported first.
    let r = reg.create_lease_agreement(lease_payload(42, "", 10, 20), NOW_NS);
    assert!(matches!(r, Err(Error::ValidationError { .. })));
    let r = reg.create_maintenance_request(maintenance_payload(42, "odd"), NOW_NS);
    assert!(matches!(r, Err(Error::ValidationError { .. })));
}
