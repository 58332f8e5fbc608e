use estate_registry::codec::{
    decode_lease, decode_maintenance, decode_property, encode_lease, encode_maintenance,
    encode_property,
};
use estate_registry::errors::Error;
use estate_registry::ops::{
    validate_lease_agreement_payload, validate_maintenance_request_payload,
};
use estate_registry::records::{
    LeaseAgreement, LeaseAgreementPayload, MaintenanceRequest, MaintenanceRequestPayload, Property,
};

#[test]
fn property_round_trips_through_bytes() {
    let p = Property {
        id: 7,
        address: "123 Main St".to_string(),
        owner: "Alice".to_string(),
        valuation_bits: 500000.0f64.to_bits(),
        status: "available".to_string(),
        created_at: 1_700_000_000,
    };
    let bytes = encode_property(&p).unwrap();
    let back = decode_property(bytes.as_slice()).unwrap();
    assert_eq!(back.id, p.id);
    assert_eq!(back.address, p.address);
    assert_eq!(back.owner, p.owner);
    assert_eq!(back.valuation_bits, p.valuation_bits);
    assert_eq!(back.status, p.status);
    assert_eq!(back.created_at, p.created_at);
}

#[test]
fn property_with_multibyte_text_round_trips() {
    let p = Property {
        id: u64::MAX,
        address: "Grüner Weg 12, München — Ω".to_string(),
        owner: "Владимир 😀".to_string(),
        valuation_bits: f64::NAN.to_bits(),
        status: "".to_string(),
        created_at: 0,
    };
    let bytes = encode_property(&p).unwrap();
    let back = decode_property(bytes.as_slice()).unwrap();
    assert_eq!(back.address, p.address);
    assert_eq!(back.owner, p.owner);
    assert_eq!(back.valuation_bits, p.valuation_bits);
    assert_eq!(back.status, "");
}

#[test]
fn lease_round_trips_through_bytes() {
    let l = LeaseAgreement {
        id: 3,
        property_id: 0,
        tenant: "Tina".to_string(),
        rent_bits: 1499.99f64.to_bits(),
        start_date: 100,
        end_date: 200,
        created_at: 1_700_000_000,
        digital_signature: "signed-by-tina".to_string(),
    };
    let bytes = encode_lease(&l).unwrap();
    let back = decode_lease(bytes.as_slice()).unwrap();
    assert_eq!(back.id, l.id);
    assert_eq!(back.property_id, l.property_id);
    assert_eq!(back.tenant, l.tenant);
    assert_eq!(back.rent_bits, l.rent_bits);
    assert_eq!(back.start_date, l.start_date);
    assert_eq!(back.end_date, l.end_date);
    assert_eq!(back.created_at, l.created_at);
    assert_eq!(back.digital_signature, l.digital_signature);
}

#[test]
fn maintenance_round_trips_through_bytes() {
    let m = MaintenanceRequest {
        id: 11,
        property_id: 4,
        description: "leaky faucet".to_string(),
        status: "pending".to_string(),
        created_at: 1_700_000_000,
        priority: "high".to_string(),
    };
    let bytes = encode_maintenance(&m).unwrap();
    let back = decode_maintenance(bytes.as_slice()).unwrap();
    assert_eq!(back.description, m.description);
    assert_eq!(back.status, m.status);
    assert_eq!(back.priority, m.priority);
    assert_eq!(back.id, m.id);
}

#[test]
fn oversized_record_fails_encoding() {
    let p = Property {
        id: 1,
        address: "a".repeat(2000),
        owner: "Alice".to_string(),
        valuation_bits: 0,
        status: "open".to_string(),
        created_at: 0,
    };
    assert!(encode_property(&p).is_none());
}

#[test]
fn truncated_bytes_fail_decoding() {
    let p = Property {
        id: 7,
        address: "123 Main St".to_string(),
        owner: "Alice".to_string(),
        valuation_bits: 0,
        status: "available".to_string(),
        created_at: 1,
    };
    let bytes = encode_property(&p).unwrap();
    assert!(decode_property(&bytes.as_slice()[..bytes.len() - 1]).is_none());
    let mut extended = bytes.clone();
    extended.push(0);
    assert!(decode_property(extended.as_slice()).is_none());
    assert!(decode_property(&[]).is_none());
}

#[test]
fn invalid_utf8_fails_decoding() {
    let p = Property {
        id: 7,
        address: "abcd".to_string(),
        owner: "o".to_string(),
        valuation_bits: 0,
        status: "s".to_string(),
        created_at: 1,
    };
    let mut bytes = encode_property(&p).unwrap();
    // The address bytes start after the id and the address length prefix;
    // 0xFF is never valid inside UTF-8 text.
    bytes[12] = 0xFF;
    assert!(decode_property(bytes.as_slice()).is_none());
}

#[test]
fn validators_accept_and_reject_as_specified() {
    let good = LeaseAgreementPayload {
        property_id: 0,
        tenant: "Tina".to_string(),
        rent_bits: 0,
        start_date: 1,
        end_date: 2,
        digital_signature: "".to_string(),
    };
    assert!(validate_lease_agreement_payload(&good).is_ok());
    let bad_dates = LeaseAgreementPayload { start_date: 2, end_date: 2, ..good };
    assert!(matches!(
        validate_lease_agreement_payload(&bad_dates),
        Err(Error::ValidationError { .. })
    ));

    let pending = MaintenanceRequestPayload {
        property_id: 0,
        description: "d".to_string(),
        status: "pending".to_string(),
        priority: "low".to_string(),
    };
    assert!(validate_maintenance_request_payload(&pending).is_ok());
    let completed = MaintenanceRequestPayload { status: "completed".to_string(), ..pending };
    assert!(validate_maintenance_request_payload(&completed).is_ok());
    let odd = MaintenanceRequestPayload { status: "Pending".to_string(), ..completed };
    assert!(matches!(
        validate_maintenance_request_payload(&odd),
        Err(Error::ValidationError { .. })
    ));
}

#[test]
fn encoding_layout_is_exact() {
    let p = Property {
        id: 0x0102030405060708,
        address: "AB".to_string(),
        owner: "".to_string(),
        valuation_bits: 1,
        status: "é".to_string(),
        created_at: 2,
    };
    let bytes = encode_property(&p).unwrap();
    let mut expected: Vec<u8> = Vec::new();
    expected.extend_from_slice(&0x0102030405060708u64.to_le_bytes());
    expected.extend_from_slice(&2u32.to_le_bytes());
    expected.extend_from_slice(b"AB");
    expected.extend_from_slice(&0u32.to_le_bytes());
    expected.extend_from_slice(&1u64.to_le_bytes());
    expected.extend_from_slice(&2u32.to_le_bytes());
    expected.extend_from_slice(&[0xC3, 0xA9]);
    expected.extend_from_slice(&2u64.to_le_bytes());
    assert_eq!(bytes, expected);
}
