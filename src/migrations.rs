//! Stored entity records, their binary layouts, and the steps that rewrite
//! them from an older layout to a newer one.
//!
//! Layout 0 is the bare 16-byte payload; layout 1 adds a 4-byte name; the
//! current layout 2 has an 8-byte name.  All fields are raw bytes, one after
//! the other.
use vstd::prelude::*;
use std::collections::HashMap;
use crate::pallet::Kitty;
use crate::scale::{decode_array, encode_record, record_encoding};
use crate::KittyId;

pub mod v1;
pub mod v2;

verus! {

broadcast use vstd::std_specs::hash::group_hash_axioms;

/// An entity record of layout 0: the payload alone.
#[derive(Clone, Copy, Debug, PartialEq, Eq)]
pub struct KittyVersion0(pub [u8; 16]);

/// An entity record of layout 1: the payload and a 4-byte name.
#[derive(Clone, Copy, Debug, PartialEq, Eq)]
pub struct KittyVersion1 {
    pub dna: [u8; 16],
    pub name: [u8; 4],
}

/// The name given to records that come to layout 1 from layout 0.
pub open spec fn default_name_v1() -> Seq<u8> {
    seq![97u8, 98u8, 99u8, 100u8]
}

/// The name given to records that come to layout 2 from layout 0.
pub open spec fn default_name_v2() -> Seq<u8> {
    seq![97u8, 98u8, 99u8, 100u8, 101u8, 102u8, 103u8, 104u8]
}

/// A rewrite of every stored record from one layout to another.
#[derive(Clone, Copy, Debug, PartialEq, Eq, Structural)]
pub enum Step {
    /// Layout 0 to layout 1: the payload is kept, the name is the default.
    V0ToV1,
    /// Layout 0 to layout 2: the payload is kept, the name is the default.
    V0ToV2,
    /// Layout 1 to layout 2: the payload is kept, the old name fills the
    /// first four bytes of the new one and zeros the rest.
    V1ToV2,
}

/// A record rewritten by `step`, or `None` when it is too short to decode
/// under the old layout.  Decoding reads the fields from the front and
/// ignores what follows them.
pub open spec fn upgrade_spec(step: Step, bytes: Seq<u8>) -> Option<Seq<u8>> {
    match step {
        Step::V0ToV1 => if bytes.len() >= 16 {
            Some(bytes.subrange(0, 16) + default_name_v1())
        } else {
            None
        },
        Step::V0ToV2 => if bytes.len() >= 16 {
            Some(bytes.subrange(0, 16) + default_name_v2())
        } else {
            None
        },
        Step::V1ToV2 => if bytes.len() >= 20 {
            Some(bytes.subrange(0, 16) + bytes.subrange(16, 20) + seq![0u8, 0u8, 0u8, 0u8])
        } else {
            None
        },
    }
}

/// The stored records after `step`: each record that decodes under the old
/// layout is rewritten under the same identifier; the others are gone.
pub open spec fn upgraded(m: Map<KittyId, Seq<u8>>, step: Step) -> Map<KittyId, Seq<u8>> {
    Map::new(
        |k: KittyId| m.contains_key(k) && upgrade_spec(step, m[k]) is Some,
        |k: KittyId| upgrade_spec(step, m[k])->0,
    )
}

/// Decodes a record of layout 0.
pub fn decode_v0(bytes: &[u8]) -> (r: Option<KittyVersion0>)
    ensures
        r is Some <==> bytes@.len() >= 16,
        r is Some ==> r.unwrap().0@ == bytes@.subrange(0, 16),
{
    match decode_array::<16>(bytes) {
        Some(dna) => Some(KittyVersion0(dna)),
        None => None,
    }
}

/// Decodes a record of layout 1.
pub fn decode_v1(bytes: &[u8]) -> (r: Option<KittyVersion1>)
    ensures
        r is Some <==> bytes@.len() >= 20,
        r is Some ==> r->0.dna@ == bytes@.subrange(0, 16) && r->0.name@ == bytes@.subrange(16, 20),
{
    if bytes.len() < 16 {
        return None;
    }
    let dna = match decode_array::<16>(bytes) {
        Some(dna) => dna,
        None => return None,
    };
    let rest = vstd::slice::slice_subrange(bytes, 16, bytes.len());
    let name = match decode_array::<4>(rest) {
        Some(name) => name,
        None => return None,
    };
    assert(name@ =~= bytes@.subrange(16, 20));
    Some(KittyVersion1 { dna, name })
}

/// Decodes a record of the current layout.
pub fn decode_kitty(bytes: &[u8]) -> (r: Option<Kitty>)
    ensures
        r is Some <==> bytes@.len() >= 24,
        r is Some ==> r->0.dna@ == bytes@.subrange(0, 16) && r->0.name@ == bytes@.subrange(16, 24),
{
    if bytes.len() < 16 {
        return None;
    }
    let dna = match decode_array::<16>(bytes) {
        Some(dna) => dna,
        None => return None,
    };
    let rest = vstd::slice::slice_subrange(bytes, 16, bytes.len());
    let name = match decode_array::<8>(rest) {
        Some(name) => name,
        None => return None,
    };
    assert(name@ =~= bytes@.subrange(16, 24));
    Some(Kitty { dna, name })
}

/// Encodes a record of layout 0.
pub fn encode_v0(kitty: &KittyVersion0) -> (r: Vec<u8>)
    ensures
        r@ == kitty.0@,
{
    let mut out: Vec<u8> = Vec::new();
    let mut i: usize = 0;
    while i < 16
        invariant
            i <= 16,
            out@ == kitty.0@.subrange(0, i as int),
        decreases 16 - i,
    {
        out.push(kitty.0[i]);
        i = i + 1;
        assert(out@ =~= kitty.0@.subrange(0, i as int));
    }
    assert(kitty.0@ =~= kitty.0@.subrange(0, 16));
    out
}

/// Encodes a record of layout 1.
pub fn encode_v1(kitty: &KittyVersion1) -> (r: Vec<u8>)
    ensures
        r@ == kitty.dna@ + kitty.name@,
{
    encode_record(&kitty.dna, &kitty.name)
}

/// Encodes a record of the current layout.
pub fn encode_kitty(kitty: &Kitty) -> (r: Vec<u8>)
    ensures
        r@ == kitty.dna@ + kitty.name@,
{
    encode_record(&kitty.dna, &kitty.name)
}

/// Rewrites one record under `step`, or `None` when it does not decode
/// under the old layout.
pub fn upgrade_record(step: Step, bytes: &[u8]) -> (r: Option<Vec<u8>>)
    ensures
        match r {
            Some(v) => upgrade_spec(step, bytes@) == Some(v@),
            None => upgrade_spec(step, bytes@) is None,
        },
{
    match step {
        Step::V0ToV1 => match decode_v0(bytes) {
            Some(old) => {
                let name: [u8; 4] = [97u8, 98u8, 99u8, 100u8];
                assert(name@ =~= default_name_v1());
                Some(encode_record(&old.0, &name))
            },
            None => None,
        },
        Step::V0ToV2 => match decode_v0(bytes) {
            Some(old) => {
                let name: [u8; 8] = [97u8, 98u8, 99u8, 100u8, 101u8, 102u8, 103u8, 104u8];
                assert(name@ =~= default_name_v2());
                Some(encode_record(&old.0, &name))
            },
            None => None,
        },
        Step::V1ToV2 => match decode_v1(bytes) {
            Some(old) => {
                let name: [u8; 8] = [old.name[0], old.name[1], old.name[2], old.name[3], 0u8, 0u8, 0u8, 0u8];
                assert(name@ =~= old.name@ + seq![0u8, 0u8, 0u8, 0u8]);
                let r = encode_record(&old.dna, &name);
                assert(r@ =~= bytes@.subrange(0, 16) + bytes@.subrange(16, 20) + seq![0u8, 0u8, 0u8, 0u8]);
                Some(r)
            },
            None => None,
        },
    }
}

/// Rewriting a record a second time under the same step changes nothing.
pub proof fn lemma_upgrade_record_idempotent(step: Step, bytes: Seq<u8>)
    requires
        upgrade_spec(step, bytes) is Some,
    ensures
        upgrade_spec(step, upgrade_spec(step, bytes)->0) == upgrade_spec(step, bytes),
{
    let once = upgrade_spec(step, bytes)->0;
    match step {
        Step::V0ToV1 => {
            assert(once.subrange(0, 16) =~= bytes.subrange(0, 16));
            assert(once.subrange(0, 16) + default_name_v1() =~= once);
        },
        Step::V0ToV2 => {
            assert(once.subrange(0, 16) =~= bytes.subrange(0, 16));
            assert(once.subrange(0, 16) + default_name_v2() =~= once);
        },
        Step::V1ToV2 => {
            assert(once.subrange(0, 16) =~= bytes.subrange(0, 16));
            assert(once.subrange(16, 20) =~= bytes.subrange(16, 20));
            assert(once.subrange(0, 16) + once.subrange(16, 20) + seq![0u8, 0u8, 0u8, 0u8] =~= once);
        },
    }
}

/// Running a step over the stored records twice gives the same records as
/// running it once.
pub proof fn lemma_upgrade_idempotent(m: Map<KittyId, Seq<u8>>, step: Step)
    ensures
        upgraded(upgraded(m, step), step) == upgraded(m, step),
{
    let once = upgraded(m, step);
    assert forall|k: KittyId| #[trigger] once.contains_key(k) implies upgrade_spec(step, once[k]) == Some(once[k]) by {
        lemma_upgrade_record_idempotent(step, m[k]);
    }
    assert(upgraded(once, step) =~= once);
}

/// The entity-record map as stored: encoded records keyed by identifier.
pub struct RecordStore {
    records: HashMap<KittyId, Vec<u8>>,
    keys: Vec<KittyId>,
}

impl View for RecordStore {
    type V = Map<KittyId, Seq<u8>>;

    closed spec fn view(&self) -> Map<KittyId, Seq<u8>> {
        Map::new(|k: KittyId| self.records@.contains_key(k), |k: KittyId| self.records@[k]@)
    }
}

impl RecordStore {
    /// The key list holds each stored identifier exactly once.
    pub closed spec fn wf(&self) -> bool {
        &&& self.keys@.no_duplicates()
        &&& forall|k: KittyId| #[trigger] self.records@.contains_key(k) <==> self.keys@.contains(k)
    }

    /// An empty store.
    pub fn new() -> (r: RecordStore)
        ensures
            r.wf(),
            r@ == Map::<KittyId, Seq<u8>>::empty(),
    {
        let r = RecordStore { records: HashMap::new(), keys: Vec::new() };
        assert(r@ =~= Map::<KittyId, Seq<u8>>::empty());
        r
    }

    /// Stores `bytes` under `kitty_id`, replacing what was there.
    pub fn insert(&mut self, kitty_id: KittyId, bytes: Vec<u8>)
        requires
            old(self).wf(),
        ensures
            final(self).wf(),
            final(self)@ == old(self)@.insert(kitty_id, bytes@),
    {
        if !self.records.contains_key(&kitty_id) {
            assert(!self.keys@.contains(kitty_id));
            self.keys.push(kitty_id);
        }
        self.records.insert(kitty_id, bytes);
        assert(self@ =~= old(self)@.insert(kitty_id, bytes@));
        assert forall|k: KittyId| #[trigger] self.records@.contains_key(k) <==> self.keys@.contains(k) by {
            if k != kitty_id {
                assert(old(self).records@.contains_key(k) <==> old(self).keys@.contains(k));
                if self.keys@.contains(k) {
                    let j = choose|j: int| 0 <= j < self.keys@.len() && self.keys@[j] == k;
                    assert(old(self).keys@[j] == k);
                }
                if old(self).keys@.contains(k) {
                    let j = choose|j: int| 0 <= j < old(self).keys@.len() && old(self).keys@[j] == k;
                    assert(self.keys@[j] == k);
                }
            } else {
                if !old(self).records@.contains_key(k) {
                    assert(self.keys@[self.keys@.len() - 1] == k);
                }
            }
        }
    }

    /// The record stored under `kitty_id`, if any.
    pub fn get(&self, kitty_id: KittyId) -> (r: Option<Vec<u8>>)
        ensures
            r is Some <==> self@.contains_key(kitty_id),
            r is Some ==> r->0@ == self@[kitty_id],
    {
        match self.records.get(&kitty_id) {
            Some(bytes) => {
                let copy = bytes.clone();
                assert(copy@ =~= bytes@);
                Some(copy)
            },
            None => None,
        }
    }

    /// The identifiers that have a stored record, each once.
    pub fn ids(&self) -> (r: Vec<KittyId>)
        requires
            self.wf(),
        ensures
            r@.no_duplicates(),
            forall|k: KittyId| #[trigger] r@.contains(k) <==> self@.contains_key(k),
    {
        let r = self.keys.clone();
        assert(r@ =~= self.keys@);
        r
    }

    /// Rewrites every record under `step`, keeping its identifier; a record
    /// that does not decode under the old layout is removed.
    pub fn upgrade_all(&mut self, step: Step)
        requires
            old(self).wf(),
        ensures
            final(self).wf(),
            final(self)@ == upgraded(old(self)@, step),
    {
        let mut records: HashMap<KittyId, Vec<u8>> = HashMap::new();
        let mut keys: Vec<KittyId> = Vec::new();
        let mut i: usize = 0;
        while i < self.keys.len()
            invariant
                *self == *old(self),
                self.wf(),
                i <= self.keys@.len(),
                keys@.no_duplicates(),
                forall|k: KittyId| #[trigger] records@.contains_key(k) <==> keys@.contains(k),
                forall|k: KittyId| #[trigger]
                    records@.contains_key(k) <==> (self.keys@.subrange(0, i as int).contains(k)
                        && self.records@.contains_key(k) && upgrade_spec(step, self.records@[k]@) is Some),
                forall|k: KittyId| #[trigger]
                    records@.contains_key(k) ==> Some(records@[k]@) == upgrade_spec(step, self.records@[k]@),
            decreases self.keys@.len() - i,
        {
            let k = self.keys[i];
            let ghost done = self.keys@.subrange(0, i as int);
            assert(self.keys@.subrange(0, i + 1) =~= done.push(k));
            assert(!done.contains(k)) by {
                assert forall|j: int| 0 <= j < done.len() implies done[j] != k by {
                    assert(self.keys@[j] == done[j]);
                }
            }
            assert(self.records@.contains_key(k)) by {
                assert(self.keys@[i as int] == k);
            }
            let ghost before = records@;
            let ghost before_keys = keys@;
            match self.records.get(&k) {
                Some(bytes) => {
                    match upgrade_record(step, bytes.as_slice()) {
                        Some(new_bytes) => {
                            records.insert(k, new_bytes);
                            keys.push(k);
                            assert(!before_keys.contains(k));
                            assert forall|x: KittyId| #[trigger] keys@.contains(x) <==> (before_keys.contains(x) || x == k) by {
                                if keys@.contains(x) {
                                    let j = choose|j: int| 0 <= j < keys@.len() && keys@[j] == x;
                                    if j < before_keys.len() {
                                        assert(before_keys[j] == x);
                                    }
                                }
                                if before_keys.contains(x) {
                                    let j = choose|j: int| 0 <= j < before_keys.len() && before_keys[j] == x;
                                    assert(keys@[j] == x);
                                }
                                if x == k {
                                    assert(keys@[keys@.len() - 1] == x);
                                }
                            }
                        },
                        None => {},
                    }
                },
                None => {},
            }
            assert forall|x: KittyId| #[trigger]
                records@.contains_key(x) <==> (self.keys@.subrange(0, i + 1).contains(x)
                    && self.records@.contains_key(x) && upgrade_spec(step, self.records@[x]@) is Some) by {
                let next = self.keys@.subrange(0, i + 1);
                if x != k {
                    assert(records@.contains_key(x) == before.contains_key(x));
                    if next.contains(x) {
                        let j = choose|j: int| 0 <= j < next.len() && next[j] == x;
                        assert(done[j] == x);
                    }
                    if done.contains(x) {
                        let j = choose|j: int| 0 <= j < done.len() && done[j] == x;
                        assert(next[j] == x);
                    }
                } else {
                    assert(next[i as int] == x);
                }
            }
            i = i + 1;
        }
        assert(self.keys@.subrange(0, i as int) =~= self.keys@);
        self.records = records;
        self.keys = keys;
        assert(self@ =~= upgraded(old(self)@, step));
    }
}

} // verus!
