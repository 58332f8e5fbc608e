use vstd::prelude::*;
use crate::codec::{
    dec_lease, dec_maintenance, dec_property, decode_lease, decode_maintenance, decode_property,
    enc_lease, enc_maintenance, enc_property, encode_lease, encode_maintenance, encode_property,
    lemma_lease_round_trip, lemma_maintenance_round_trip, lemma_property_round_trip,
    MAX_RECORD_BYTES,
};
use crate::records::{LeaseAgreement, MaintenanceRequest, Property};
use crate::errors::{Error, ErrorKind};
use crate::storage::{
    byte_table_contains, byte_table_contents, byte_table_entries, byte_table_get,
    byte_table_insert, byte_table_remove, ByteTable,
};

verus! {

/// A value is encodable when its encoding observes the capacity ceiling.
pub open spec fn encodable<T: Record>(v: T::V) -> bool {
    T::enc(v).len() <= MAX_RECORD_BYTES
}

/// A record type with a bounded byte encoding of proved round-trip fidelity.
pub trait Record: View + Sized {
    /// The encoding of a record value.
    spec fn enc(v: Self::V) -> Seq<u8>;

    /// The decoding of a byte string.
    spec fn dec(b: Seq<u8>) -> Option<Self::V>;

    /// The id a record carries.
    spec fn key(v: Self::V) -> u64;

    /// Reads the id the record carries.
    fn read_key(&self) -> (r: u64)
        ensures
            r == Self::key(self@),
    ;

    /// Decoding inverts encoding on every encodable value.
    proof fn round_trip(v: Self::V)
        requires
            Self::enc(v).len() <= MAX_RECORD_BYTES,
        ensures
            Self::dec(Self::enc(v)) == Some(v),
    ;

    /// Encodes the record, failing beyond the capacity ceiling.
    fn encode(&self) -> (r: Option<Vec<u8>>)
        ensures
            match r {
                Some(b) => b@ == Self::enc(self@) && Self::enc(self@).len() <= MAX_RECORD_BYTES,
                None => Self::enc(self@).len() > MAX_RECORD_BYTES,
            },
    ;

    /// Decodes a record, exactly as [`Record::dec`] does.
    fn decode(b: &[u8]) -> (r: Option<Self>)
        ensures
            match r {
                Some(p) => Self::dec(b@) == Some(p@),
                None => Self::dec(b@) is None,
            },
    ;
}

impl Record for Property {
    open spec fn key(v: Self::V) -> u64 {
        v.id
    }

    fn read_key(&self) -> (r: u64) {
        self.id
    }

    open spec fn enc(v: Self::V) -> Seq<u8> {
        enc_property(v)
    }

    open spec fn dec(b: Seq<u8>) -> Option<Self::V> {
        dec_property(b)
    }

    proof fn round_trip(v: Self::V) {
        lemma_property_round_trip(v);
    }

    fn encode(&self) -> (r: Option<Vec<u8>>) {
        encode_property(self)
    }

    fn decode(b: &[u8]) -> (r: Option<Self>) {
        decode_property(b)
    }
}

impl Record for LeaseAgreement {
    open spec fn key(v: Self::V) -> u64 {
        v.id
    }

    fn read_key(&self) -> (r: u64) {
        self.id
    }

    open spec fn enc(v: Self::V) -> Seq<u8> {
        enc_lease(v)
    }

    open spec fn dec(b: Seq<u8>) -> Option<Self::V> {
        dec_lease(b)
    }

    proof fn round_trip(v: Self::V) {
        lemma_lease_round_trip(v);
    }

    fn encode(&self) -> (r: Option<Vec<u8>>) {
        encode_lease(self)
    }

    fn decode(b: &[u8]) -> (r: Option<Self>) {
        decode_lease(b)
    }
}

impl Record for MaintenanceRequest {
    open spec fn key(v: Self::V) -> u64 {
        v.id
    }

    fn read_key(&self) -> (r: u64) {
        self.id
    }

    open spec fn enc(v: Self::V) -> Seq<u8> {
        enc_maintenance(v)
    }

    open spec fn dec(b: Seq<u8>) -> Option<Self::V> {
        dec_maintenance(b)
    }

    proof fn round_trip(v: Self::V) {
        lemma_maintenance_round_trip(v);
    }

    fn encode(&self) -> (r: Option<Vec<u8>>) {
        encode_maintenance(self)
    }

    fn decode(b: &[u8]) -> (r: Option<Self>) {
        decode_maintenance(b)
    }
}

/// One stored entry is sound for the record type when its bytes decode to a
/// record carrying the id it is stored under, an id allocated below `bound`.
pub open spec fn entry_sound<T: Record>(b: Seq<u8>, id: u64, bound: u64) -> bool {
    &&& T::dec(b) matches Some(v) && T::key(v) == id
    &&& id < bound
}

/// A loaded byte store is a sound image for the record type when every
/// stored entry is sound.
pub open spec fn store_image_sound<T: Record>(contents: Map<u64, Seq<u8>>, bound: u64) -> bool {
    forall|id: u64| #[trigger] contents.contains_key(id) ==> entry_sound::<T>(contents[id], id, bound)
}

/// Checks a loaded byte store against the record type: the check passes
/// exactly when every stored entry decodes to a record carrying the id it is
/// stored under, below `bound`.
pub fn store_sound<T: Record>(store: &ByteTable, bound: u64) -> (r: bool)
    ensures
        r == store_image_sound::<T>(byte_table_contents(*store), bound),
{
    let ghost contents = byte_table_contents(*store);
    let raw = byte_table_entries(store);
    let n = raw.len();
    let mut k: usize = 0;
    while k < n
        invariant
            contents == byte_table_contents(*store),
            n == raw@.len(),
            k <= n,
            forall|j: int|
                #![auto]
                0 <= j < raw@.len() ==> contents.contains_key(raw@[j].0) && raw@[j].1@
                    == contents[raw@[j].0],
            forall|id: u64|
                #![auto]
                contents.contains_key(id) ==> exists|j: int| 0 <= j < raw@.len() && raw@[j].0 == id,
            forall|j: int| #![auto] 0 <= j < k ==> entry_sound::<T>(raw@[j].1@, raw@[j].0, bound),
        decreases n - k,
    {
        let id = raw[k].0;
        let rec = match T::decode(raw[k].1.as_slice()) {
            Some(t) => t,
            None => {
                proof {
                    assert(!entry_sound::<T>(contents[id], id, bound));
                }
                return false;
            },
        };
        if rec.read_key() != id || id >= bound {
            proof {
                assert(!entry_sound::<T>(contents[id], id, bound));
            }
            return false;
        }
        proof {
            assert(entry_sound::<T>(raw@[k as int].1@, id, bound));
        }
        k = k + 1;
    }
    proof {
        assert forall|id: u64| contents.contains_key(id) implies entry_sound::<T>(
            contents[id],
            id,
            bound,
        ) by {
            let j = choose|j: int| 0 <= j < raw@.len() && raw@[j].0 == id;
            assert(entry_sound::<T>(raw@[j].1@, raw@[j].0, bound));
        }
    }
    true
}

/// One entity table: a stable byte table in which every stored value is the
/// encoding of a record. Viewed as the map from id to decoded record.
pub struct Table<T: Record> {
    store: ByteTable,
    kind: core::marker::PhantomData<T>,
}

impl<T: Record> View for Table<T> {
    type V = Map<u64, T::V>;

    closed spec fn view(&self) -> Map<u64, T::V> {
        Map::new(
            |id: u64| byte_table_contents(self.store).contains_key(id),
            |id: u64| T::dec(byte_table_contents(self.store)[id]).unwrap(),
        )
    }
}

impl<T: Record> Table<T> {
    /// The raw bytes held by the backing store.
    pub closed spec fn contents(self) -> Map<u64, Seq<u8>> {
        byte_table_contents(self.store)
    }

    /// Well-formed: finitely many entries, each decodable.
    pub closed spec fn wf(self) -> bool {
        &&& self.contents().dom().finite()
        &&& forall|id: u64| #[trigger]
            self.contents().contains_key(id) ==> T::dec(self.contents()[id]) is Some
    }

    /// Wraps a loaded byte store whose every entry is known to decode; the
    /// table's records are then exactly the decodings of the stored bytes.
    pub fn from_store(store: ByteTable) -> (r: Self)
        requires
            byte_table_contents(store).dom().finite(),
            forall|id: u64| #[trigger]
                byte_table_contents(store).contains_key(id) ==> T::dec(
                    byte_table_contents(store)[id],
                ) is Some,
        ensures
            r.wf(),
            forall|id: u64|
                #![auto]
                r@.contains_key(id) <==> byte_table_contents(store).contains_key(id),
            forall|id: u64| #[trigger]
                r@.contains_key(id) ==> T::dec(byte_table_contents(store)[id]) == Some(r@[id]),
    {
        let r = Table { store, kind: core::marker::PhantomData };
        proof {
            assert forall|id: u64| #[trigger] r@.contains_key(id) implies T::dec(
                byte_table_contents(r.store)[id],
            ) == Some(r@[id]) by {
                assert(byte_table_contents(r.store).contains_key(id));
            }
        }
        r
    }

    /// Whether a record is stored under the id.
    pub fn contains(&self, id: u64) -> (r: bool)
        ensures
            r == self@.contains_key(id),
    {
        byte_table_contains(&self.store, id)
    }

    /// The record stored under the id, if any.
    pub fn get(&self, id: u64) -> (r: Option<T>)
        requires
            self.wf(),
        ensures
            match r {
                Some(t) => self@.contains_key(id) && t@ == self@[id],
                None => !self@.contains_key(id),
            },
    {
        match byte_table_get(&self.store, id) {
            None => None,
            Some(bytes) => match T::decode(bytes.as_slice()) {
                Some(t) => Some(t),
                None => unreached(),
            },
        }
    }

    /// Stores a record under an id, overwriting any previous record.
    pub fn insert(&mut self, id: u64, rec: &T)
        requires
            old(self).wf(),
            encodable::<T>(rec@),
        ensures
            final(self).wf(),
            final(self)@ == old(self)@.insert(id, rec@),
    {
        let bytes = match rec.encode() {
            Some(b) => b,
            None => unreached(),
        };
        proof {
            assert(bytes@ == T::enc(rec@));
            assert(bytes@.len() <= MAX_RECORD_BYTES);
        }
        byte_table_insert(&mut self.store, id, &bytes);
        proof {
            T::round_trip(rec@);
            assert(self@ =~= old(self)@.insert(id, rec@));
        }
    }

    /// Removes the record under an id, reporting whether one was stored.
    pub fn remove(&mut self, id: u64) -> (r: bool)
        requires
            old(self).wf(),
        ensures
            final(self).wf(),
            final(self)@ == old(self)@.remove(id),
            r == old(self)@.contains_key(id),
    {
        let r = byte_table_remove(&mut self.store, id);
        proof {
            assert(self@ =~= old(self)@.remove(id));
        }
        r
    }

    /// Every stored record paired with its id, in ascending id order.
    pub fn entries(&self) -> (r: Vec<(u64, T)>)
        requires
            self.wf(),
        ensures
            forall|k: int|
                #![auto]
                0 <= k < r@.len() ==> self@.contains_key(r@[k].0) && r@[k].1@ == self@[r@[k].0],
            forall|id: u64|
                #![auto]
                self@.contains_key(id) ==> exists|k: int| 0 <= k < r@.len() && r@[k].0 == id,
            forall|k1: int, k2: int|
                #![auto]
                0 <= k1 < k2 < r@.len() ==> r@[k1].0 < r@[k2].0,
            r@.len() == 0 <==> self@.dom() =~= (Set::<u64>::empty()),
    {
        let raw = byte_table_entries(&self.store);
        let n = raw.len();
        let mut out: Vec<(u64, T)> = Vec::new();
        let mut k: usize = 0;
        while k < n
            invariant
                self.wf(),
                n == raw@.len(),
                k <= n,
                out@.len() == k,
                forall|j: int|
                    #![auto]
                    0 <= j < raw@.len() ==> self.contents().contains_key(raw@[j].0) && raw@[j].1@
                        == self.contents()[raw@[j].0],
                forall|j: int| #![auto] 0 <= j < k ==> out@[j].0 == raw@[j].0,
                forall|j: int|
                    #![auto]
                    0 <= j < k ==> self@.contains_key(out@[j].0) && out@[j].1@ == self@[out@[j].0],
            decreases n - k,
        {
            let t: T = match T::decode(raw[k].1.as_slice()) {
                Some(t) => t,
                None => unreached(),
            };
            out.push((raw[k].0, t));
            k = k + 1;
        }
        proof {
            assert forall|k1: int, k2: int| 0 <= k1 < k2 < out@.len() implies out@[k1].0
                < out@[k2].0 by {
                assert(raw@[k1].0 < raw@[k2].0);
            }
            if raw@.len() == 0 {
                assert forall|id: u64| !self@.contains_key(id) by {
                    if self@.contains_key(id) {
                        assert(exists|j: int| 0 <= j < raw@.len() && raw@[j].0 == id);
                    }
                }
                assert(self@.dom() =~= Set::<u64>::empty());
            } else {
                assert(self@.contains_key(raw@[0].0));
                assert(self@.dom().contains(raw@[0].0));
            }
        }
        out
    }

    /// Every record in ascending id order, or `NotFound` with the given
    /// message when the table is empty: the registry's deliberate
    /// empty-collection-as-error convention.
    pub fn list_all(&self, empty_msg: &str) -> (r: Result<Vec<T>, Error>)
        requires
            self.wf(),
            forall|k: u64| #[trigger] self@.contains_key(k) ==> T::key(self@[k]) == k,
        ensures
            match r {
                Ok(v) => {
                    &&& v@.len() > 0
                    &&& forall|k: int|
                        #![auto]
                        0 <= k < v@.len() ==> self@.contains_key(T::key(v@[k]@)) && v@[k]@
                            == self@[T::key(v@[k]@)]
                    &&& forall|id: u64|
                        #![auto]
                        self@.contains_key(id) ==> exists|k: int|
                            0 <= k < v@.len() && T::key(v@[k]@) == id
                    &&& forall|k1: int, k2: int|
                        #![auto]
                        0 <= k1 < k2 < v@.len() ==> T::key(v@[k1]@) < T::key(v@[k2]@)
                },
                Err(e) => {
                    &&& self@.dom() == (Set::<u64>::empty())
                    &&& e.kind() == ErrorKind::NotFound
                },
            },
    {
        let pairs = self.entries();
        if pairs.len() == 0 {
            return Err(Error::not_found(empty_msg));
        }
        let ghost orig = pairs@;
        let mut rest = pairs;
        let mut out: Vec<T> = Vec::new();
        while rest.len() > 0
            invariant
                out@.len() + rest@.len() == orig.len(),
                rest@ == orig.skip(out@.len() as int),
                forall|j: int| #![auto] 0 <= j < out@.len() ==> out@[j] == orig[j].1,
            decreases rest@.len(),
        {
            let (id, t) = rest.remove(0);
            proof {
                assert(rest@ =~= orig.skip(out@.len() as int + 1));
            }
            out.push(t);
        }
        proof {
            assert forall|k: int| 0 <= k < out@.len() implies self@.contains_key(T::key(out@[k]@))
                && out@[k]@ == self@[T::key(out@[k]@)] by {
                assert(out@[k] == orig[k].1);
                assert(self@.contains_key(orig[k].0) && orig[k].1@ == self@[orig[k].0]);
                assert(T::key(out@[k]@) == orig[k].0);
            }
            assert forall|id: u64| self@.contains_key(id) implies exists|k: int|
                0 <= k < out@.len() && T::key(out@[k]@) == id by {
                let k = choose|k: int| 0 <= k < orig.len() && orig[k].0 == id;
                assert(out@[k] == orig[k].1);
                assert(T::key(out@[k]@) == id);
            }
            assert forall|k1: int, k2: int| 0 <= k1 < k2 < out@.len() implies T::key(out@[k1]@)
                < T::key(out@[k2]@) by {
                assert(out@[k1] == orig[k1].1 && out@[k2] == orig[k2].1);
                assert(orig[k1].0 < orig[k2].0);
                assert(T::key(out@[k1]@) == orig[k1].0 && T::key(out@[k2]@) == orig[k2].0);
            }
        }
        Ok(out)
    }
}

} // verus!
