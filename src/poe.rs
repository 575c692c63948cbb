//! A proof-of-existence store: byte strings claimed by accounts, each with
//! the block number at which it was claimed.
use vstd::prelude::*;
use crate::pallet::{signer, Origin};
use crate::AccountId;

verus! {

/// A block height of the host ledger.
pub type BlockNumber = u64;

/// Why a claim operation failed.
#[derive(Clone, Copy, Debug, PartialEq, Eq, Structural)]
pub enum Error {
    /// The operation needs a signed origin.
    BadOrigin,
    /// The claim is held already.
    ProofAlreadyExist,
    /// The proof does not exist.
    ProofNotExist,
    /// The claim is longer than the configured bound.
    ClaimTooLong,
    /// Nobody holds the claim.
    ClaimNotExist,
    /// The requester does not hold the claim.
    NotClaimOwner,
}

/// One stored claim: its bytes, its holder and the block it was made at.
pub type Entry = (Vec<u8>, AccountId, BlockNumber);

/// The stored claims as plain values.
pub open spec fn entries_view(entries: Seq<Entry>) -> Seq<(Seq<u8>, AccountId, BlockNumber)> {
    entries.map_values(|e: Entry| (e.0@, e.1, e.2))
}

/// No two stored claims have the same bytes.
pub open spec fn unique_claims(s: Seq<(Seq<u8>, AccountId, BlockNumber)>) -> bool {
    forall|i: int, j: int|
        0 <= i < s.len() && 0 <= j < s.len() && #[trigger] s[i].0 == #[trigger] s[j].0 ==> i == j
}

/// Some stored claim has the bytes `c`.
pub open spec fn has_claim(s: Seq<(Seq<u8>, AccountId, BlockNumber)>, c: Seq<u8>) -> bool {
    exists|i: int| 0 <= i < s.len() && #[trigger] s[i].0 == c
}

/// The stored claims as a map from claim bytes to holder and block.
pub open spec fn claims_map(s: Seq<(Seq<u8>, AccountId, BlockNumber)>) -> Map<Seq<u8>, (AccountId, BlockNumber)> {
    Map::new(
        |c: Seq<u8>| has_claim(s, c),
        |c: Seq<u8>| {
            let i = choose|i: int| 0 <= i < s.len() && #[trigger] s[i].0 == c;
            (s[i].1, s[i].2)
        },
    )
}

/// The map entry of a stored claim is the one at its position.
proof fn lemma_claims_map_at(s: Seq<(Seq<u8>, AccountId, BlockNumber)>, i: int)
    requires
        unique_claims(s),
        0 <= i < s.len(),
    ensures
        claims_map(s).contains_key(s[i].0),
        claims_map(s)[s[i].0] == (s[i].1, s[i].2),
{
    assert(has_claim(s, s[i].0));
}

/// Adding a claim that is not stored adds it to the map.
proof fn lemma_claims_map_push(s: Seq<(Seq<u8>, AccountId, BlockNumber)>, e: (Seq<u8>, AccountId, BlockNumber))
    requires
        unique_claims(s),
        !has_claim(s, e.0),
    ensures
        unique_claims(s.push(e)),
        claims_map(s.push(e)) == claims_map(s).insert(e.0, (e.1, e.2)),
{
    let t = s.push(e);
    assert forall|i: int, j: int|
        0 <= i < t.len() && 0 <= j < t.len() && #[trigger] t[i].0 == #[trigger] t[j].0 implies i == j by {
        if i < s.len() && j < s.len() {
            assert(s[i].0 == s[j].0);
        } else if i < s.len() {
            assert(s[i].0 == e.0);
        } else if j < s.len() {
            assert(s[j].0 == e.0);
        }
    }
    assert forall|c: Seq<u8>| #[trigger] has_claim(t, c) <==> (has_claim(s, c) || c == e.0) by {
        if has_claim(s, c) {
            let i = choose|i: int| 0 <= i < s.len() && #[trigger] s[i].0 == c;
            assert(t[i].0 == c);
        }
        if c == e.0 {
            assert(t[s.len() as int].0 == c);
        }
        if has_claim(t, c) && c != e.0 {
            let i = choose|i: int| 0 <= i < t.len() && #[trigger] t[i].0 == c;
            assert(s[i].0 == c);
        }
    }
    assert forall|c: Seq<u8>| #[trigger] claims_map(t).contains_key(c) implies claims_map(t)[c]
        == claims_map(s).insert(e.0, (e.1, e.2))[c] by {
        let i = choose|i: int| 0 <= i < t.len() && #[trigger] t[i].0 == c;
        lemma_claims_map_at(t, i);
        if c != e.0 {
            assert(i < s.len());
            lemma_claims_map_at(s, i);
        }
    }
    assert(claims_map(t) =~= claims_map(s).insert(e.0, (e.1, e.2)));
}

/// Dropping a stored claim removes it from the map.
proof fn lemma_claims_map_remove(s: Seq<(Seq<u8>, AccountId, BlockNumber)>, k: int)
    requires
        unique_claims(s),
        0 <= k < s.len(),
    ensures
        unique_claims(s.remove(k)),
        !has_claim(s.remove(k), s[k].0),
        claims_map(s.remove(k)) == claims_map(s).remove(s[k].0),
{
    let t = s.remove(k);
    assert forall|i: int| 0 <= i < t.len() implies #[trigger] t[i] == s[if i < k { i } else { i + 1 }] by {}
    assert forall|i: int, j: int|
        0 <= i < t.len() && 0 <= j < t.len() && #[trigger] t[i].0 == #[trigger] t[j].0 implies i == j by {
        let si = if i < k { i } else { i + 1 };
        let sj = if j < k { j } else { j + 1 };
        assert(t[i] == s[si]);
        assert(t[j] == s[sj]);
    }
    assert forall|c: Seq<u8>| #[trigger] has_claim(t, c) <==> (has_claim(s, c) && c != s[k].0) by {
        if has_claim(t, c) {
            let i = choose|i: int| 0 <= i < t.len() && #[trigger] t[i].0 == c;
            let si = if i < k { i } else { i + 1 };
            assert(t[i] == s[si]);
            assert(s[si].0 == c);
        }
        if has_claim(s, c) && c != s[k].0 {
            let i = choose|i: int| 0 <= i < s.len() && #[trigger] s[i].0 == c;
            if i < k {
                assert(t[i] == s[i]);
                assert(t[i].0 == c);
            } else {
                assert(t[i - 1] == s[i]);
                assert(t[i - 1].0 == c);
            }
        }
    }
    assert forall|c: Seq<u8>| #[trigger] claims_map(t).contains_key(c) implies claims_map(t)[c]
        == claims_map(s)[c] by {
        let i = choose|i: int| 0 <= i < t.len() && #[trigger] t[i].0 == c;
        let si = if i < k { i } else { i + 1 };
        assert(t[i] == s[si]);
        lemma_claims_map_at(t, i);
        lemma_claims_map_at(s, si);
    }
    assert(claims_map(t) =~= claims_map(s).remove(s[k].0));
}

/// Whether two byte strings are equal.
fn bytes_equal(a: &[u8], b: &[u8]) -> (r: bool)
    ensures
        r == (a@ == b@),
{
    if a.len() != b.len() {
        return false;
    }
    let mut i: usize = 0;
    while i < a.len()
        invariant
            a@.len() == b@.len(),
            i <= a@.len(),
            forall|j: int| 0 <= j < i ==> a@[j] == b@[j],
        decreases a@.len() - i,
    {
        if a[i] != b[i] {
            return false;
        }
        i = i + 1;
    }
    assert(a@ =~= b@);
    true
}

/// The checks of making a claim: it must fit the bound and not be held.
pub open spec fn create_check(max_claim_length: u32, claims: Map<Seq<u8>, (AccountId, BlockNumber)>, origin: Origin, claim: Seq<u8>) -> Result<AccountId, Error> {
    match signer(origin) {
        Err(_) => Err(Error::BadOrigin),
        Ok(who) => if claim.len() > max_claim_length {
            Err(Error::ClaimTooLong)
        } else if claims.contains_key(claim) {
            Err(Error::ProofAlreadyExist)
        } else {
            Ok(who)
        },
    }
}

/// The checks of revoking or handing on a claim: it must be held, by the
/// requester.
pub open spec fn owner_check(claims: Map<Seq<u8>, (AccountId, BlockNumber)>, origin: Origin, claim: Seq<u8>) -> Result<AccountId, Error> {
    match signer(origin) {
        Err(_) => Err(Error::BadOrigin),
        Ok(who) => if !claims.contains_key(claim) {
            Err(Error::ClaimNotExist)
        } else if claims[claim].0 != who {
            Err(Error::NotClaimOwner)
        } else {
            Ok(who)
        },
    }
}

/// The claim store, with the bound on a claim's length and the current
/// block number.
pub struct Pallet {
    max_claim_length: u32,
    block_number: BlockNumber,
    proofs: Vec<Entry>,
}

impl View for Pallet {
    type V = Map<Seq<u8>, (AccountId, BlockNumber)>;

    closed spec fn view(&self) -> Map<Seq<u8>, (AccountId, BlockNumber)> {
        claims_map(entries_view(self.proofs@))
    }
}

impl Pallet {
    /// No claim is stored twice.
    pub closed spec fn wf(&self) -> bool {
        unique_claims(entries_view(self.proofs@))
    }

    /// The bound on a claim's length.
    pub closed spec fn max_len(&self) -> u32 {
        self.max_claim_length
    }

    /// The current block number.
    pub closed spec fn block(&self) -> BlockNumber {
        self.block_number
    }

    /// An empty store that accepts claims of up to `max_claim_length` bytes,
    /// at block 0.
    pub fn new(max_claim_length: u32) -> (r: Pallet)
        ensures
            r.wf(),
            r@ == Map::<Seq<u8>, (AccountId, BlockNumber)>::empty(),
            r.max_len() == max_claim_length,
            r.block() == 0,
    {
        let r = Pallet { max_claim_length, block_number: 0, proofs: Vec::new() };
        assert(r@ =~= Map::<Seq<u8>, (AccountId, BlockNumber)>::empty());
        r
    }

    /// The current block number.
    pub fn block_number(&self) -> (r: BlockNumber)
        ensures
            r == self.block(),
    {
        self.block_number
    }

    /// Moves to block `block_number`.
    pub fn set_block_number(&mut self, block_number: BlockNumber)
        ensures
            final(self)@ == old(self)@,
            final(self).wf() == old(self).wf(),
            final(self).max_len() == old(self).max_len(),
            final(self).block() == block_number,
    {
        self.block_number = block_number;
    }

    /// Position of `claim` among the stored claims.
    fn position(&self, claim: &[u8]) -> (r: Option<usize>)
        ensures
            match r {
                Some(i) => i < self.proofs@.len() && entries_view(self.proofs@)[i as int].0 == claim@,
                None => !has_claim(entries_view(self.proofs@), claim@),
            },
    {
        let mut i: usize = 0;
        while i < self.proofs.len()
            invariant
                i <= self.proofs@.len(),
                forall|j: int| 0 <= j < i ==> entries_view(self.proofs@)[j].0 != claim@,
            decreases self.proofs@.len() - i,
        {
            if bytes_equal(self.proofs[i].0.as_slice(), claim) {
                return Some(i);
            }
            i = i + 1;
        }
        None
    }

    /// Holder and block of `claim`, if it is held.
    pub fn proofs(&self, claim: &[u8]) -> (r: Option<(AccountId, BlockNumber)>)
        requires
            self.wf(),
        ensures
            r == (if self@.contains_key(claim@) {
                Some(self@[claim@])
            } else {
                None
            }),
    {
        match self.position(claim) {
            Some(i) => {
                proof {
                    lemma_claims_map_at(entries_view(self.proofs@), i as int);
                }
                Some((self.proofs[i].1, self.proofs[i].2))
            },
            None => None,
        }
    }

    /// Records `claim` as held by the requester since the current block.
    pub fn create_claim(&mut self, origin: Origin, claim: Vec<u8>) -> (r: Result<(), Error>)
        requires
            old(self).wf(),
        ensures
            final(self).wf(),
            final(self).max_len() == old(self).max_len(),
            final(self).block() == old(self).block(),
            match create_check(old(self).max_len(), old(self)@, origin, claim@) {
                Err(e) => r == Err::<(), Error>(e) && final(self)@ == old(self)@,
                Ok(who) => r is Ok && final(self)@ == old(self)@.insert(claim@, (who, old(self).block())),
            },
    {
        let who = match origin {
            Origin::Signed(who) => who,
            _ => return Err(Error::BadOrigin),
        };
        if claim.len() > self.max_claim_length as usize {
            return Err(Error::ClaimTooLong);
        }
        match self.position(claim.as_slice()) {
            Some(i) => {
                proof {
                    lemma_claims_map_at(entries_view(self.proofs@), i as int);
                }
                return Err(Error::ProofAlreadyExist);
            },
            None => {},
        }
        let ghost before = self.proofs@;
        let ghost key = claim@;
        self.proofs.push((claim, who, self.block_number));
        proof {
            assert(entries_view(self.proofs@) =~= entries_view(before).push((key, who, self.block_number)));
            lemma_claims_map_push(entries_view(before), (key, who, self.block_number));
        }
        Ok(())
    }

    /// Removes `claim`; only its holder may.
    pub fn revoke_claim(&mut self, origin: Origin, claim: Vec<u8>) -> (r: Result<(), Error>)
        requires
            old(self).wf(),
        ensures
            final(self).wf(),
            final(self).max_len() == old(self).max_len(),
            final(self).block() == old(self).block(),
            match owner_check(old(self)@, origin, claim@) {
                Err(e) => r == Err::<(), Error>(e) && final(self)@ == old(self)@,
                Ok(_) => r is Ok && final(self)@ == old(self)@.remove(claim@),
            },
    {
        let who = match origin {
            Origin::Signed(who) => who,
            _ => return Err(Error::BadOrigin),
        };
        let i = match self.position(claim.as_slice()) {
            Some(i) => i,
            None => return Err(Error::ClaimNotExist),
        };
        proof {
            lemma_claims_map_at(entries_view(self.proofs@), i as int);
        }
        if self.proofs[i].1 != who {
            return Err(Error::NotClaimOwner);
        }
        let ghost before = self.proofs@;
        self.proofs.remove(i);
        proof {
            assert(entries_view(self.proofs@) =~= entries_view(before).remove(i as int));
            lemma_claims_map_remove(entries_view(before), i as int);
        }
        Ok(())
    }

    /// Hands `claim` to `account_id`, keeping the block it was made at;
    /// only its holder may.
    pub fn transfer_claim(&mut self, origin: Origin, claim: Vec<u8>, account_id: AccountId) -> (r: Result<(), Error>)
        requires
            old(self).wf(),
        ensures
            final(self).wf(),
            final(self).max_len() == old(self).max_len(),
            final(self).block() == old(self).block(),
            match owner_check(old(self)@, origin, claim@) {
                Err(e) => r == Err::<(), Error>(e) && final(self)@ == old(self)@,
                Ok(_) => r is Ok && final(self)@ == old(self)@.insert(claim@, (account_id, old(self)@[claim@].1)),
            },
    {
        let who = match origin {
            Origin::Signed(who) => who,
            _ => return Err(Error::BadOrigin),
        };
        let i = match self.position(claim.as_slice()) {
            Some(i) => i,
            None => return Err(Error::ClaimNotExist),
        };
        proof {
            lemma_claims_map_at(entries_view(self.proofs@), i as int);
        }
        if self.proofs[i].1 != who {
            return Err(Error::NotClaimOwner);
        }
        let ghost before = self.proofs@;
        let (stored, _, block_number) = self.proofs.remove(i);
        let ghost middle = self.proofs@;
        let ghost key = stored@;
        self.proofs.push((stored, account_id, block_number));
        proof {
            assert(entries_view(middle) =~= entries_view(before).remove(i as int));
            lemma_claims_map_remove(entries_view(before), i as int);
            assert(entries_view(self.proofs@) =~= entries_view(middle).push((key, account_id, block_number)));
            lemma_claims_map_push(entries_view(middle), (key, account_id, block_number));
            assert(claims_map(entries_view(self.proofs@)) =~= claims_map(entries_view(before)).insert(
                claim@,
                (account_id, block_number),
            ));
        }
        Ok(())
    }
}

} // verus!
