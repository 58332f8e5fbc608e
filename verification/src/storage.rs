use vstd::prelude::*;
use ic_stable_structures::memory_manager::{MemoryId, MemoryManager, VirtualMemory};
use ic_stable_structures::storable::Blob;
use ic_stable_structures::{Cell, DefaultMemoryImpl, StableBTreeMap};

verus! {

/// An ordered stable-memory table from u64 ids to encoded records of at most
/// [`crate::codec::MAX_RECORD_BYTES`] bytes each. The `StableBTreeMap` of
/// `ic_stable_structures` inside is opaque to verification: the table's
/// logical contents are named by [`byte_table_contents`], and the wrappers
/// below state over that name what the crate's source shows of each method.
#[verifier::external_body]
pub struct ByteTable {
    map: StableBTreeMap<u64, Blob<1024>, VirtualMemory<DefaultMemoryImpl>>,
}

/// The contents of a [`ByteTable`]: each stored id, mapped to the bytes kept
/// under it.
pub uninterp spec fn byte_table_contents(t: ByteTable) -> Map<u64, Seq<u8>>;

/// Relies on MemoryManager::init and get, Cell::init, and
/// StableBTreeMap::init. The manager simulates four independent memories
/// inside the one stable memory of the process, so the structures never
/// touch one another's bytes and the per-structure contracts below hold
/// jointly. `init` reloads whatever each region already holds — that is how
/// records and the counter survive a process restart — and starts a fresh
/// region as an empty table, or as the counter at zero. Nothing can be
/// promised of the loaded values; a loaded table holds finitely many
/// entries, since a stored table's length is a machine word. On a memory
/// the cell cannot take, Cell::init traps: storage failure is fatal here.
#[verifier::external_body]
pub fn storage_init() -> (r: (CounterCell, ByteTable, ByteTable, ByteTable))
    ensures
        byte_table_contents(r.1).dom().finite(),
        byte_table_contents(r.2).dom().finite(),
        byte_table_contents(r.3).dom().finite(),
{
    let mm = MemoryManager::init(DefaultMemoryImpl::default());
    let cell = Cell::init(mm.get(MemoryId::new(0)), 0).expect("Cannot create a counter");
    let properties = ByteTable { map: StableBTreeMap::init(mm.get(MemoryId::new(1))) };
    let leases = ByteTable { map: StableBTreeMap::init(mm.get(MemoryId::new(2))) };
    let maintenance = ByteTable { map: StableBTreeMap::init(mm.get(MemoryId::new(3))) };
    (CounterCell { cell }, properties, leases, maintenance)
}

/// Relies on StableBTreeMap::insert: it stores the value under the key,
/// overwriting any previous value. The length bound is the capacity of the
/// stored blob, above which insert refuses the value.
#[verifier::external_body]
pub fn byte_table_insert(t: &mut ByteTable, id: u64, bytes: &Vec<u8>)
    requires
        bytes@.len() <= crate::codec::MAX_RECORD_BYTES,
    ensures
        byte_table_contents(*final(t)) == byte_table_contents(*old(t)).insert(id, bytes@),
{
    let blob = Blob::<1024>::try_from(bytes.as_slice())
        .expect("record exceeds the table's value capacity");
    t.map.insert(id, blob);
}

/// Relies on StableBTreeMap::get: it returns the value stored under the key,
/// or nothing when the key is absent.
#[verifier::external_body]
pub fn byte_table_get(t: &ByteTable, id: u64) -> (r: Option<Vec<u8>>)
    ensures
        match r {
            Some(b) => byte_table_contents(*t).contains_key(id) && b@ == byte_table_contents(*t)[id],
            None => !byte_table_contents(*t).contains_key(id),
        },
{
    t.map.get(&id).map(|b| b.as_slice().to_vec())
}

/// Relies on StableBTreeMap::contains_key: it reports whether a value is
/// stored under the key.
#[verifier::external_body]
pub fn byte_table_contains(t: &ByteTable, id: u64) -> (r: bool)
    ensures
        r == byte_table_contents(*t).contains_key(id),
{
    t.map.contains_key(&id)
}

/// Relies on StableBTreeMap::remove: it removes the key and returns the value
/// that was stored under it, if any.
#[verifier::external_body]
pub fn byte_table_remove(t: &mut ByteTable, id: u64) -> (r: bool)
    ensures
        byte_table_contents(*final(t)) == byte_table_contents(*old(t)).remove(id),
        r == byte_table_contents(*old(t)).contains_key(id),
{
    t.map.remove(&id).is_some()
}

/// Relies on StableBTreeMap::iter: it yields every stored entry exactly once,
/// sorted by ascending key.
#[verifier::external_body]
pub fn byte_table_entries(t: &ByteTable) -> (r: Vec<(u64, Vec<u8>)>)
    ensures
        forall|k: int|
            #![auto]
            0 <= k < r@.len() ==> byte_table_contents(*t).contains_key(r@[k].0) && r@[k].1@
                == byte_table_contents(*t)[r@[k].0],
        forall|id: u64|
            #![auto]
            byte_table_contents(*t).contains_key(id) ==> exists|k: int|
                0 <= k < r@.len() && r@[k].0 == id,
        forall|k1: int, k2: int|
            #![auto]
            0 <= k1 < k2 < r@.len() ==> r@[k1].0 < r@[k2].0,
{
    let mut out: Vec<(u64, Vec<u8>)> = Vec::new();
    for (id, blob) in t.map.iter() {
        out.push((id, blob.as_slice().to_vec()));
    }
    out
}

/// The persistent allocator counter, kept in a stable-memory cell. The `Cell`
/// of `ic_stable_structures` inside is opaque to verification: its held value
/// is named by [`counter_value`].
#[verifier::external_body]
pub struct CounterCell {
    cell: Cell<u64, VirtualMemory<DefaultMemoryImpl>>,
}

/// The value held by a [`CounterCell`].
pub uninterp spec fn counter_value(c: CounterCell) -> u64;

/// Relies on Cell::get: it returns the held value.
#[verifier::external_body]
pub fn counter_get(c: &CounterCell) -> (r: u64)
    ensures
        r == counter_value(*c),
{
    *c.cell.get()
}

/// Relies on Cell::set: the cell then holds the given value. A value that
/// stable memory cannot take traps here, as the platform treats storage
/// failure as fatal; an eight-byte value does not hit that path.
#[verifier::external_body]
pub fn counter_set(c: &mut CounterCell, v: u64)
    ensures
        counter_value(*final(c)) == v,
{
    c.cell.set(v).expect("Failed to increment ID counter");
}

} // verus!
