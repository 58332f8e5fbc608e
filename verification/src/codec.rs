use vstd::prelude::*;
use vstd::bytes::{
    lemma_auto_spec_u32_to_from_le_bytes, lemma_auto_spec_u64_to_from_le_bytes,
    spec_u32_from_le_bytes, spec_u32_to_le_bytes, spec_u64_from_le_bytes, spec_u64_to_le_bytes,
    u32_to_le_bytes, u64_to_le_bytes,
};
use vstd::slice::{slice_subrange, slice_to_vec};
use vstd::utf8::{decode_utf8, encode_utf8, valid_utf8};
use crate::records::{
    LeaseAgreement, LeaseAgreementV, MaintenanceRequest, MaintenanceRequestV, Property, PropertyV,
};

verus! {

/// Capacity ceiling of one encoded record: an encoding longer than this must
/// fail, never be truncated.
pub const MAX_RECORD_BYTES: usize = 1024;

// ---------------------------------------------------------------------------
// Byte-level encoding: u64 fields little-endian, strings as a little-endian
// u32 byte count followed by the UTF-8 bytes of the string.
// ---------------------------------------------------------------------------

/// The encoding of one string field.
pub open spec fn enc_str(s: Seq<char>) -> Seq<u8> {
    spec_u32_to_le_bytes(encode_utf8(s).len() as u32) + encode_utf8(s)
}

/// The length of one encoded string field.
pub open spec fn enc_str_len(s: Seq<char>) -> int {
    4 + encode_utf8(s).len() as int
}

/// The encoding of a property record.
pub open spec fn enc_property(v: PropertyV) -> Seq<u8> {
    spec_u64_to_le_bytes(v.id) + enc_str(v.address) + enc_str(v.owner) + spec_u64_to_le_bytes(
        v.valuation_bits,
    ) + enc_str(v.status) + spec_u64_to_le_bytes(v.created_at)
}

/// The encoding of a lease agreement record.
pub open spec fn enc_lease(v: LeaseAgreementV) -> Seq<u8> {
    spec_u64_to_le_bytes(v.id) + spec_u64_to_le_bytes(v.property_id) + enc_str(v.tenant)
        + spec_u64_to_le_bytes(v.rent_bits) + spec_u64_to_le_bytes(v.start_date)
        + spec_u64_to_le_bytes(v.end_date) + spec_u64_to_le_bytes(v.created_at) + enc_str(
        v.digital_signature,
    )
}

/// The encoding of a maintenance request record.
pub open spec fn enc_maintenance(v: MaintenanceRequestV) -> Seq<u8> {
    spec_u64_to_le_bytes(v.id) + spec_u64_to_le_bytes(v.property_id) + enc_str(v.description)
        + enc_str(v.status) + spec_u64_to_le_bytes(v.created_at) + enc_str(v.priority)
}

// ---------------------------------------------------------------------------
// Byte-level decoding, as a function of the byte sequence and a read offset.
// ---------------------------------------------------------------------------

/// Reads a little-endian u64 at offset `i`.
pub open spec fn take_u64(b: Seq<u8>, i: int) -> Option<(u64, int)> {
    if 0 <= i && i + 8 <= b.len() {
        Some((spec_u64_from_le_bytes(b.subrange(i, i + 8)), i + 8))
    } else {
        None
    }
}

/// Reads a little-endian u32 at offset `i`.
pub open spec fn take_u32(b: Seq<u8>, i: int) -> Option<(u32, int)> {
    if 0 <= i && i + 4 <= b.len() {
        Some((spec_u32_from_le_bytes(b.subrange(i, i + 4)), i + 4))
    } else {
        None
    }
}

/// Reads one string field at offset `i`: a u32 byte count, then that many
/// bytes, which must be valid UTF-8.
pub open spec fn take_str(b: Seq<u8>, i: int) -> Option<(Seq<char>, int)> {
    match take_u32(b, i) {
        None => None,
        Some((n, j)) => {
            if j + n <= b.len() && valid_utf8(b.subrange(j, j + n)) {
                Some((decode_utf8(b.subrange(j, j + n)), j + n))
            } else {
                None
            }
        },
    }
}

/// Decodes a property record; the bytes must be consumed exactly.
pub open spec fn dec_property(b: Seq<u8>) -> Option<PropertyV> {
    match take_u64(b, 0) {
        None => None,
        Some((id, i1)) => match take_str(b, i1) {
            None => None,
            Some((address, i2)) => match take_str(b, i2) {
                None => None,
                Some((owner, i3)) => match take_u64(b, i3) {
                    None => None,
                    Some((valuation_bits, i4)) => match take_str(b, i4) {
                        None => None,
                        Some((status, i5)) => match take_u64(b, i5) {
                            None => None,
                            Some((created_at, i6)) => {
                                if i6 == b.len() {
                                    Some(
                                        PropertyV {
                                            id,
                                            address,
                                            owner,
                                            valuation_bits,
                                            status,
                                            created_at,
                                        },
                                    )
                                } else {
                                    None
                                }
                            },
                        },
                    },
                },
            },
        },
    }
}

/// Decodes a lease agreement record; the bytes must be consumed exactly.
pub open spec fn dec_lease(b: Seq<u8>) -> Option<LeaseAgreementV> {
    match take_u64(b, 0) {
        None => None,
        Some((id, i1)) => match take_u64(b, i1) {
            None => None,
            Some((property_id, i2)) => match take_str(b, i2) {
                None => None,
                Some((tenant, i3)) => match take_u64(b, i3) {
                    None => None,
                    Some((rent_bits, i4)) => match take_u64(b, i4) {
                        None => None,
                        Some((start_date, i5)) => match take_u64(b, i5) {
                            None => None,
                            Some((end_date, i6)) => match take_u64(b, i6) {
                                None => None,
                                Some((created_at, i7)) => match take_str(b, i7) {
                                    None => None,
                                    Some((digital_signature, i8)) => {
                                        if i8 == b.len() {
                                            Some(
                                                LeaseAgreementV {
                                                    id,
                                                    property_id,
                                                    tenant,
                                                    rent_bits,
                                                    start_date,
                                                    end_date,
                                                    created_at,
                                                    digital_signature,
                                                },
                                            )
                                        } else {
                                            None
                                        }
                                    },
                                },
                            },
                        },
                    },
                },
            },
        },
    }
}

/// Decodes a maintenance request record; the bytes must be consumed exactly.
pub open spec fn dec_maintenance(b: Seq<u8>) -> Option<MaintenanceRequestV> {
    match take_u64(b, 0) {
        None => None,
        Some((id, i1)) => match take_u64(b, i1) {
            None => None,
            Some((property_id, i2)) => match take_str(b, i2) {
                None => None,
                Some((description, i3)) => match take_str(b, i3) {
                    None => None,
                    Some((status, i4)) => match take_u64(b, i4) {
                        None => None,
                        Some((created_at, i5)) => match take_str(b, i5) {
                            None => None,
                            Some((priority, i6)) => {
                                if i6 == b.len() {
                                    Some(
                                        MaintenanceRequestV {
                                            id,
                                            property_id,
                                            description,
                                            status,
                                            created_at,
                                            priority,
                                        },
                                    )
                                } else {
                                    None
                                }
                            },
                        },
                    },
                },
            },
        },
    }
}

// ---------------------------------------------------------------------------
// Round-trip lemmas: decoding an encoding yields the record back.
// ---------------------------------------------------------------------------

/// Reading a u64 out of a buffer that carries its encoding at offset `i`
/// yields the value back.
proof fn lemma_take_u64_seg(b: Seq<u8>, i: int, x: u64)
    requires
        0 <= i,
        i + 8 <= b.len(),
        b.subrange(i, i + 8) == spec_u64_to_le_bytes(x),
    ensures
        take_u64(b, i) == Some((x, i + 8)),
{
    lemma_auto_spec_u64_to_from_le_bytes();
}

/// Reading a string field out of a buffer that carries its encoding at
/// offset `i` yields the characters back.
proof fn lemma_take_str_seg(b: Seq<u8>, i: int, s: Seq<char>)
    requires
        0 <= i,
        encode_utf8(s).len() <= u32::MAX,
        i + enc_str_len(s) <= b.len(),
        b.subrange(i, i + enc_str_len(s)) == enc_str(s),
    ensures
        take_str(b, i) == Some((s, i + enc_str_len(s))),
{
    broadcast use vstd::utf8::encode_utf8_valid_utf8, vstd::utf8::encode_utf8_decode_utf8;

    lemma_auto_spec_u32_to_from_le_bytes();
    let u = encode_utf8(s);
    let n = u.len() as u32;
    assert(b.subrange(i, i + 4) =~= enc_str(s).subrange(0, 4));
    assert(enc_str(s).subrange(0, 4) =~= spec_u32_to_le_bytes(n));
    assert(take_u32(b, i) == Some((n, i + 4)));
    assert(b.subrange(i + 4, i + 4 + n) =~= u) by {
        assert forall|k: int| 0 <= k < n implies b.subrange(i + 4, i + 4 + n)[k] == u[k] by {
            assert(b.subrange(i + 4, i + 4 + n)[k] == b.subrange(i, i + enc_str_len(s))[k + 4]);
            assert(enc_str(s)[k + 4] == u[k]);
        }
    }
}

/// Encoding then decoding a property yields an identical record.
pub proof fn lemma_property_round_trip(v: PropertyV)
    requires
        enc_property(v).len() <= MAX_RECORD_BYTES,
    ensures
        dec_property(enc_property(v)) == Some(v),
{
    lemma_auto_spec_u64_to_from_le_bytes();
    lemma_auto_spec_u32_to_from_le_bytes();
    lemma_enc_str_len(v.address);
    lemma_enc_str_len(v.owner);
    lemma_enc_str_len(v.status);
    let b: Seq<u8> = enc_property(v);
    let i1: int = 8;
    let i2: int = i1 + enc_str_len(v.address);
    let i3: int = i2 + enc_str_len(v.owner);
    let i4: int = i3 + 8;
    let i5: int = i4 + enc_str_len(v.status);
    let i6: int = i5 + 8;
    assert(b.len() == i6);
    assert(b.subrange(0, i1) =~= spec_u64_to_le_bytes(v.id));
    lemma_take_u64_seg(b, 0, v.id);
    assert(b.subrange(i1, i2) =~= enc_str(v.address));
    lemma_take_str_seg(b, i1, v.address);
    assert(b.subrange(i2, i3) =~= enc_str(v.owner));
    lemma_take_str_seg(b, i2, v.owner);
    assert(b.subrange(i3, i4) =~= spec_u64_to_le_bytes(v.valuation_bits));
    lemma_take_u64_seg(b, i3, v.valuation_bits);
    assert(b.subrange(i4, i5) =~= enc_str(v.status));
    lemma_take_str_seg(b, i4, v.status);
    assert(b.subrange(i5, i6) =~= spec_u64_to_le_bytes(v.created_at));
    lemma_take_u64_seg(b, i5, v.created_at);
}

/// Encoding then decoding a lease agreement yields an identical record.
pub proof fn lemma_lease_round_trip(v: LeaseAgreementV)
    requires
        enc_lease(v).len() <= MAX_RECORD_BYTES,
    ensures
        dec_lease(enc_lease(v)) == Some(v),
{
    lemma_auto_spec_u64_to_from_le_bytes();
    lemma_auto_spec_u32_to_from_le_bytes();
    lemma_enc_str_len(v.tenant);
    lemma_enc_str_len(v.digital_signature);
    let b: Seq<u8> = enc_lease(v);
    let i1: int = 8;
    let i2: int = i1 + 8;
    let i3: int = i2 + enc_str_len(v.tenant);
    let i4: int = i3 + 8;
    let i5: int = i4 + 8;
    let i6: int = i5 + 8;
    let i7: int = i6 + 8;
    let i8: int = i7 + enc_str_len(v.digital_signature);
    assert(b.len() == i8);
    assert(b.subrange(0, i1) =~= spec_u64_to_le_bytes(v.id));
    lemma_take_u64_seg(b, 0, v.id);
    assert(b.subrange(i1, i2) =~= spec_u64_to_le_bytes(v.property_id));
    lemma_take_u64_seg(b, i1, v.property_id);
    assert(b.subrange(i2, i3) =~= enc_str(v.tenant));
    lemma_take_str_seg(b, i2, v.tenant);
    assert(b.subrange(i3, i4) =~= spec_u64_to_le_bytes(v.rent_bits));
    lemma_take_u64_seg(b, i3, v.rent_bits);
    assert(b.subrange(i4, i5) =~= spec_u64_to_le_bytes(v.start_date));
    lemma_take_u64_seg(b, i4, v.start_date);
    assert(b.subrange(i5, i6) =~= spec_u64_to_le_bytes(v.end_date));
    lemma_take_u64_seg(b, i5, v.end_date);
    assert(b.subrange(i6, i7) =~= spec_u64_to_le_bytes(v.created_at));
    lemma_take_u64_seg(b, i6, v.created_at);
    assert(b.subrange(i7, i8) =~= enc_str(v.digital_signature));
    lemma_take_str_seg(b, i7, v.digital_signature);
}

/// Encoding then decoding a maintenance request yields an identical record.
pub proof fn lemma_maintenance_round_trip(v: MaintenanceRequestV)
    requires
        enc_maintenance(v).len() <= MAX_RECORD_BYTES,
    ensures
        dec_maintenance(enc_maintenance(v)) == Some(v),
{
    lemma_auto_spec_u64_to_from_le_bytes();
    lemma_auto_spec_u32_to_from_le_bytes();
    lemma_enc_str_len(v.description);
    lemma_enc_str_len(v.status);
    lemma_enc_str_len(v.priority);
    let b: Seq<u8> = enc_maintenance(v);
    let i1: int = 8;
    let i2: int = i1 + 8;
    let i3: int = i2 + enc_str_len(v.description);
    let i4: int = i3 + enc_str_len(v.status);
    let i5: int = i4 + 8;
    let i6: int = i5 + enc_str_len(v.priority);
    assert(b.len() == i6);
    assert(b.subrange(0, i1) =~= spec_u64_to_le_bytes(v.id));
    lemma_take_u64_seg(b, 0, v.id);
    assert(b.subrange(i1, i2) =~= spec_u64_to_le_bytes(v.property_id));
    lemma_take_u64_seg(b, i1, v.property_id);
    assert(b.subrange(i2, i3) =~= enc_str(v.description));
    lemma_take_str_seg(b, i2, v.description);
    assert(b.subrange(i3, i4) =~= enc_str(v.status));
    lemma_take_str_seg(b, i3, v.status);
    assert(b.subrange(i4, i5) =~= spec_u64_to_le_bytes(v.created_at));
    lemma_take_u64_seg(b, i4, v.created_at);
    assert(b.subrange(i5, i6) =~= enc_str(v.priority));
    lemma_take_str_seg(b, i5, v.priority);
}

/// The length of an encoded string field.
pub proof fn lemma_enc_str_len(s: Seq<char>)
    ensures
        enc_str(s).len() == enc_str_len(s),
{
    lemma_auto_spec_u32_to_from_le_bytes();
}

/// The length of an encoded property.
pub proof fn lemma_enc_property_len(v: PropertyV)
    ensures
        enc_property(v).len() == 36 + encode_utf8(v.address).len() + encode_utf8(v.owner).len()
            + encode_utf8(v.status).len(),
{
    lemma_auto_spec_u64_to_from_le_bytes();
    lemma_enc_str_len(v.address);
    lemma_enc_str_len(v.owner);
    lemma_enc_str_len(v.status);
}

/// The length of an encoded lease agreement.
pub proof fn lemma_enc_lease_len(v: LeaseAgreementV)
    ensures
        enc_lease(v).len() == 56 + encode_utf8(v.tenant).len() + encode_utf8(
            v.digital_signature,
        ).len(),
{
    lemma_auto_spec_u64_to_from_le_bytes();
    lemma_enc_str_len(v.tenant);
    lemma_enc_str_len(v.digital_signature);
}

/// The length of an encoded maintenance request.
pub proof fn lemma_enc_maintenance_len(v: MaintenanceRequestV)
    ensures
        enc_maintenance(v).len() == 36 + encode_utf8(v.description).len() + encode_utf8(
            v.status,
        ).len() + encode_utf8(v.priority).len(),
{
    lemma_auto_spec_u64_to_from_le_bytes();
    lemma_enc_str_len(v.description);
    lemma_enc_str_len(v.status);
    lemma_enc_str_len(v.priority);
}

// ---------------------------------------------------------------------------
// Trusted boundary to std's UTF-8 machinery.
// ---------------------------------------------------------------------------

/// Relies on str::as_bytes: a string's bytes are the UTF-8 encoding of its
/// characters.
#[verifier::external_body]
fn utf8_bytes(s: &str) -> (r: Vec<u8>)
    ensures
        r@ == encode_utf8(s@),
{
    s.as_bytes().to_vec()
}

/// The number of bytes the string occupies in an encoded record's string
/// field, besides the four-byte count.
pub fn utf8_len(s: &str) -> (r: usize)
    ensures
        r == encode_utf8(s@).len(),
{
    utf8_bytes(s).len()
}

/// Relies on String::from_utf8: it accepts exactly the valid UTF-8 byte
/// sequences, and returns the string whose characters those bytes encode.
#[verifier::external_body]
fn string_from_utf8(b: Vec<u8>) -> (r: Option<String>)
    ensures
        r is Some <==> valid_utf8(b@),
        r matches Some(s) ==> s@ == decode_utf8(b@),
{
    String::from_utf8(b).ok()
}

// ---------------------------------------------------------------------------
// Executable encoders.
// ---------------------------------------------------------------------------

/// Appends every byte of a slice.
fn push_bytes(out: &mut Vec<u8>, b: &[u8])
    ensures
        final(out)@ == old(out)@ + b@,
{
    let n = b.len();
    let mut k: usize = 0;
    while k < n
        invariant
            n == b@.len(),
            k <= n,
            out@ == old(out)@ + b@.subrange(0, k as int),
        decreases n - k,
    {
        out.push(*vstd::slice::slice_index_get(b, k));
        assert(out@ =~= old(out)@ + b@.subrange(0, k as int + 1));
        k = k + 1;
    }
    assert(out@ =~= old(out)@ + b@);
}

/// Appends the little-endian encoding of a u64.
fn push_u64(out: &mut Vec<u8>, x: u64)
    ensures
        final(out)@ == old(out)@ + spec_u64_to_le_bytes(x),
{
    let b = u64_to_le_bytes(x);
    push_bytes(out, b.as_slice());
}

/// Appends one string field: a u32 byte count, then the UTF-8 bytes.
fn push_str_bytes(out: &mut Vec<u8>, utf8: &Vec<u8>, chars: Ghost<Seq<char>>)
    requires
        utf8@ == encode_utf8(chars@),
        utf8@.len() <= u32::MAX,
    ensures
        final(out)@ == old(out)@ + enc_str(chars@),
{
    let n = utf8.len() as u32;
    let b = u32_to_le_bytes(n);
    push_bytes(out, b.as_slice());
    push_bytes(out, utf8.as_slice());
    assert(out@ =~= old(out)@ + enc_str(chars@));
}

/// Encodes a property into its bounded byte representation; an encoding
/// longer than [`MAX_RECORD_BYTES`] fails rather than truncate.
pub fn encode_property(p: &Property) -> (r: Option<Vec<u8>>)
    ensures
        match r {
            Some(b) => b@ == enc_property(p@) && enc_property(p@).len() <= MAX_RECORD_BYTES,
            None => enc_property(p@).len() > MAX_RECORD_BYTES,
        },
{
    proof {
        lemma_enc_property_len(p@);
    }
    let ba = utf8_bytes(p.address.as_str());
    let bo = utf8_bytes(p.owner.as_str());
    let bs = utf8_bytes(p.status.as_str());
    if ba.len() > MAX_RECORD_BYTES || bo.len() > MAX_RECORD_BYTES || bs.len() > MAX_RECORD_BYTES {
        return None;
    }
    let total: usize = 36 + ba.len() + bo.len() + bs.len();
    if total > MAX_RECORD_BYTES {
        return None;
    }
    let mut out: Vec<u8> = Vec::new();
    push_u64(&mut out, p.id);
    push_str_bytes(&mut out, &ba, Ghost(p.address@));
    push_str_bytes(&mut out, &bo, Ghost(p.owner@));
    push_u64(&mut out, p.valuation_bits);
    push_str_bytes(&mut out, &bs, Ghost(p.status@));
    push_u64(&mut out, p.created_at);
    assert(out@ =~= enc_property(p@));
    Some(out)
}

/// Encodes a lease agreement into its bounded byte representation.
pub fn encode_lease(p: &LeaseAgreement) -> (r: Option<Vec<u8>>)
    ensures
        match r {
            Some(b) => b@ == enc_lease(p@) && enc_lease(p@).len() <= MAX_RECORD_BYTES,
            None => enc_lease(p@).len() > MAX_RECORD_BYTES,
        },
{
    proof {
        lemma_enc_lease_len(p@);
    }
    let bt = utf8_bytes(p.tenant.as_str());
    let bg = utf8_bytes(p.digital_signature.as_str());
    if bt.len() > MAX_RECORD_BYTES || bg.len() > MAX_RECORD_BYTES {
        return None;
    }
    let total: usize = 56 + bt.len() + bg.len();
    if total > MAX_RECORD_BYTES {
        return None;
    }
    let mut out: Vec<u8> = Vec::new();
    push_u64(&mut out, p.id);
    push_u64(&mut out, p.property_id);
    push_str_bytes(&mut out, &bt, Ghost(p.tenant@));
    push_u64(&mut out, p.rent_bits);
    push_u64(&mut out, p.start_date);
    push_u64(&mut out, p.end_date);
    push_u64(&mut out, p.created_at);
    push_str_bytes(&mut out, &bg, Ghost(p.digital_signature@));
    assert(out@ =~= enc_lease(p@));
    Some(out)
}

/// Encodes a maintenance request into its bounded byte representation.
pub fn encode_maintenance(p: &MaintenanceRequest) -> (r: Option<Vec<u8>>)
    ensures
        match r {
            Some(b) => b@ == enc_maintenance(p@) && enc_maintenance(p@).len() <= MAX_RECORD_BYTES,
            None => enc_maintenance(p@).len() > MAX_RECORD_BYTES,
        },
{
    proof {
        lemma_enc_maintenance_len(p@);
    }
    let bd = utf8_bytes(p.description.as_str());
    let bs = utf8_bytes(p.status.as_str());
    let bp = utf8_bytes(p.priority.as_str());
    if bd.len() > MAX_RECORD_BYTES || bs.len() > MAX_RECORD_BYTES || bp.len() > MAX_RECORD_BYTES {
        return None;
    }
    let total: usize = 36 + bd.len() + bs.len() + bp.len();
    if total > MAX_RECORD_BYTES {
        return None;
    }
    let mut out: Vec<u8> = Vec::new();
    push_u64(&mut out, p.id);
    push_u64(&mut out, p.property_id);
    push_str_bytes(&mut out, &bd, Ghost(p.description@));
    push_str_bytes(&mut out, &bs, Ghost(p.status@));
    push_u64(&mut out, p.created_at);
    push_str_bytes(&mut out, &bp, Ghost(p.priority@));
    assert(out@ =~= enc_maintenance(p@));
    Some(out)
}

// ---------------------------------------------------------------------------
// Executable decoders, each proved equal to its specification.
// ---------------------------------------------------------------------------

/// Reads a little-endian u64 at offset `i`, as [`take_u64`] does.
fn read_u64(b: &[u8], i: usize) -> (r: Option<(u64, usize)>)
    ensures
        match r {
            Some((x, j)) => take_u64(b@, i as int) == Some((x, j as int)),
            None => take_u64(b@, i as int) is None,
        },
{
    if i <= b.len() && b.len() - i >= 8 {
        let seg = slice_subrange(b, i, i + 8);
        let x = vstd::bytes::u64_from_le_bytes(seg);
        Some((x, i + 8))
    } else {
        None
    }
}

/// Reads a little-endian u32 at offset `i`, as [`take_u32`] does.
fn read_u32(b: &[u8], i: usize) -> (r: Option<(u32, usize)>)
    ensures
        match r {
            Some((x, j)) => take_u32(b@, i as int) == Some((x, j as int)),
            None => take_u32(b@, i as int) is None,
        },
{
    if i <= b.len() && b.len() - i >= 4 {
        let seg = slice_subrange(b, i, i + 4);
        let x = vstd::bytes::u32_from_le_bytes(seg);
        Some((x, i + 4))
    } else {
        None
    }
}

/// Reads one string field at offset `i`, as [`take_str`] does.
fn read_str(b: &[u8], i: usize) -> (r: Option<(String, usize)>)
    ensures
        match r {
            Some((s, j)) => take_str(b@, i as int) == Some((s@, j as int)),
            None => take_str(b@, i as int) is None,
        },
{
    match read_u32(b, i) {
        None => None,
        Some((n, j)) => {
            let n_us = n as usize;
            if j <= b.len() && b.len() - j >= n_us {
                let seg = slice_subrange(b, j, j + n_us);
                let bytes = slice_to_vec(seg);
                match string_from_utf8(bytes) {
                    Some(s) => Some((s, j + n_us)),
                    None => None,
                }
            } else {
                None
            }
        },
    }
}

/// Decodes a property, as [`dec_property`] does.
pub fn decode_property(b: &[u8]) -> (r: Option<Property>)
    ensures
        match r {
            Some(p) => dec_property(b@) == Some(p@),
            None => dec_property(b@) is None,
        },
{
    let (id, i1) = match read_u64(b, 0) {
        Some(x) => x,
        None => { return None },
    };
    let (address, i2) = match read_str(b, i1) {
        Some(x) => x,
        None => { return None },
    };
    let (owner, i3) = match read_str(b, i2) {
        Some(x) => x,
        None => { return None },
    };
    let (valuation_bits, i4) = match read_u64(b, i3) {
        Some(x) => x,
        None => { return None },
    };
    let (status, i5) = match read_str(b, i4) {
        Some(x) => x,
        None => { return None },
    };
    let (created_at, i6) = match read_u64(b, i5) {
        Some(x) => x,
        None => { return None },
    };
    if i6 == b.len() {
        Some(Property { id, address, owner, valuation_bits, status, created_at })
    } else {
        None
    }
}

/// Decodes a lease agreement, as [`dec_lease`] does.
pub fn decode_lease(b: &[u8]) -> (r: Option<LeaseAgreement>)
    ensures
        match r {
            Some(p) => dec_lease(b@) == Some(p@),
            None => dec_lease(b@) is None,
        },
{
    let (id, i1) = match read_u64(b, 0) {
        Some(x) => x,
        None => { return None },
    };
    let (property_id, i2) = match read_u64(b, i1) {
        Some(x) => x,
        None => { return None },
    };
    let (tenant, i3) = match read_str(b, i2) {
        Some(x) => x,
        None => { return None },
    };
    let (rent_bits, i4) = match read_u64(b, i3) {
        Some(x) => x,
        None => { return None },
    };
    let (start_date, i5) = match read_u64(b, i4) {
        Some(x) => x,
        None => { return None },
    };
    let (end_date, i6) = match read_u64(b, i5) {
        Some(x) => x,
        None => { return None },
    };
    let (created_at, i7) = match read_u64(b, i6) {
        Some(x) => x,
        None => { return None },
    };
    let (digital_signature, i8) = match read_str(b, i7) {
        Some(x) => x,
        None => { return None },
    };
    if i8 == b.len() {
        Some(
            LeaseAgreement {
                id,
                property_id,
                tenant,
                rent_bits,
                start_date,
                end_date,
                created_at,
                digital_signature,
            },
        )
    } else {
        None
    }
}

/// Decodes a maintenance request, as [`dec_maintenance`] does.
pub fn decode_maintenance(b: &[u8]) -> (r: Option<MaintenanceRequest>)
    ensures
        match r {
            Some(p) => dec_maintenance(b@) == Some(p@),
            None => dec_maintenance(b@) is None,
        },
{
    let (id, i1) = match read_u64(b, 0) {
        Some(x) => x,
        None => { return None },
    };
    let (property_id, i2) = match read_u64(b, i1) {
        Some(x) => x,
        None => { return None },
    };
    let (description, i3) = match read_str(b, i2) {
        Some(x) => x,
        None => { return None },
    };
    let (status, i4) = match read_str(b, i3) {
        Some(x) => x,
        None => { return None },
    };
    let (created_at, i5) = match read_u64(b, i4) {
        Some(x) => x,
        None => { return None },
    };
    let (priority, i6) = match read_str(b, i5) {
        Some(x) => x,
        None => { return None },
    };
    if i6 == b.len() {
        Some(MaintenanceRequest { id, property_id, description, status, created_at, priority })
    } else {
        None
    }
}

} // verus!
