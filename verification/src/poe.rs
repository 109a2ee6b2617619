//! Proof of existence: accounts claim byte strings, revoke their claims and
//! hand them to other accounts.

use vstd::prelude::*;
use crate::origin::{AccountId, Origin, ensure_signed};

verus! {

/// The number of a block.
pub type BlockNumber = u64;

/// Why a claim call was refused.
#[derive(Clone, Copy, Debug, PartialEq, Eq, Structural)]
pub enum PoeError {
    /// The call was not signed.
    BadOrigin,
    /// The proof has already been claimed.
    ProofAlreadyClaimed,
    /// The proof has not been claimed.
    NoSuchProof,
    /// The proof is claimed by another account.
    NotProofOwner,
    /// The proof is longer than the registry accepts.
    ClaimTooLong,
}

/// What the registry reports of a successful call.
#[derive(Clone, Debug, PartialEq, Eq)]
pub enum PoeEvent {
    /// The account claimed the proof.
    ClaimCreated(AccountId, Vec<u8>),
    /// The account revoked its claim of the proof.
    ClaimRevoked(AccountId, Vec<u8>),
    /// The proof now belongs to the account.
    TransferClaim(Vec<u8>, AccountId),
}

/// A report of the registry, with the proof by its bytes.
pub enum PoeNotice {
    ClaimCreated(AccountId, Seq<u8>),
    ClaimRevoked(AccountId, Seq<u8>),
    TransferClaim(Seq<u8>, AccountId),
}

impl View for PoeEvent {
    type V = PoeNotice;

    open spec fn view(&self) -> PoeNotice {
        match self {
            PoeEvent::ClaimCreated(who, proof) => PoeNotice::ClaimCreated(*who, proof@),
            PoeEvent::ClaimRevoked(who, proof) => PoeNotice::ClaimRevoked(*who, proof@),
            PoeEvent::TransferClaim(proof, who) => PoeNotice::TransferClaim(proof@, *who),
        }
    }
}

/// The content of the registry's storage.
#[verifier::ext_equal]
pub struct PoeModel {
    /// Per claimed proof: its owner and the block in which it was claimed or handed over.
    pub proofs: Map<Seq<u8>, (AccountId, BlockNumber)>,
    /// The longest proof the registry accepts.
    pub max_claim_length: u8,
    /// The reports so far, oldest first.
    pub events: Seq<PoeNotice>,
}

impl PoeModel {
    /// Why `sender` may not claim `proof`, if it may not.
    pub open spec fn create_refusal(self, sender: AccountId, proof: Seq<u8>) -> Option<PoeError> {
        if proof.len() > self.max_claim_length {
            Some(PoeError::ClaimTooLong)
        } else if self.proofs.contains_key(proof) {
            Some(PoeError::ProofAlreadyClaimed)
        } else {
            None
        }
    }

    /// Why `sender` may not revoke or hand over `proof`, if it may not.
    pub open spec fn owner_refusal(self, sender: AccountId, proof: Seq<u8>) -> Option<PoeError> {
        if !self.proofs.contains_key(proof) {
            Some(PoeError::NoSuchProof)
        } else if self.proofs[proof].0 != sender {
            Some(PoeError::NotProofOwner)
        } else {
            None
        }
    }

    /// The registry after `who` claimed `proof` in block `now`, reported.
    pub open spec fn after_create(self, who: AccountId, proof: Seq<u8>, now: BlockNumber) -> Self {
        PoeModel {
            proofs: self.proofs.insert(proof, (who, now)),
            events: self.events.push(PoeNotice::ClaimCreated(who, proof)),
            ..self
        }
    }

    /// The registry after `who` revoked `proof`, reported.
    pub open spec fn after_revoke(self, who: AccountId, proof: Seq<u8>) -> Self {
        PoeModel {
            proofs: self.proofs.remove(proof),
            events: self.events.push(PoeNotice::ClaimRevoked(who, proof)),
            ..self
        }
    }

    /// The registry after `proof` was handed to `dest` in block `now`, reported.
    pub open spec fn after_transfer(self, proof: Seq<u8>, dest: AccountId, now: BlockNumber) -> Self {
        PoeModel {
            proofs: self.proofs.insert(proof, (dest, now)),
            events: self.events.push(PoeNotice::TransferClaim(proof, dest)),
            ..self
        }
    }
}

struct Claim {
    proof: Vec<u8>,
    owner: AccountId,
    block: BlockNumber,
}

/// No two claims are of the same proof.
spec fn distinct_proofs(s: Seq<Claim>) -> bool {
    forall|i: int, j: int| 0 <= i < j < s.len() ==> #[trigger] s[i].proof@ != #[trigger] s[j].proof@
}

/// Whether some claim is of `k`.
spec fn has_claim(s: Seq<Claim>, k: Seq<u8>) -> bool {
    exists|i: int| 0 <= i < s.len() && #[trigger] s[i].proof@ == k
}

/// The claims by proof.
spec fn claims_view(s: Seq<Claim>) -> Map<Seq<u8>, (AccountId, BlockNumber)> {
    Map::new(
        |k: Seq<u8>| has_claim(s, k),
        |k: Seq<u8>|
            {
                let i = choose|i: int| 0 <= i < s.len() && #[trigger] s[i].proof@ == k;
                (s[i].owner, s[i].block)
            },
    )
}

proof fn lemma_claim_at(s: Seq<Claim>, i: int)
    requires
        distinct_proofs(s),
        0 <= i < s.len(),
    ensures
        claims_view(s).contains_key(s[i].proof@),
        claims_view(s)[s[i].proof@] == (s[i].owner, s[i].block),
{
    let k = s[i].proof@;
    assert(has_claim(s, k));
    let j = choose|j: int| 0 <= j < s.len() && #[trigger] s[j].proof@ == k;
    if j != i {
        if j < i {
            assert(s[j].proof@ != s[i].proof@);
        } else {
            assert(s[i].proof@ != s[j].proof@);
        }
    }
}

proof fn lemma_push_claim(s: Seq<Claim>, c: Claim)
    requires
        distinct_proofs(s),
        !has_claim(s, c.proof@),
    ensures
        distinct_proofs(s.push(c)),
        claims_view(s.push(c)) == claims_view(s).insert(c.proof@, (c.owner, c.block)),
{
    let t = s.push(c);
    assert forall|i: int, j: int| 0 <= i < j < t.len() implies #[trigger] t[i].proof@ != #[trigger] t[j].proof@ by {
        if j == s.len() {
            assert(s[i].proof@ == t[i].proof@);
        }
    }
    assert forall|k: Seq<u8>| #[trigger] claims_view(t).contains_key(k) <==> claims_view(s).insert(c.proof@, (c.owner, c.block)).contains_key(k) by {
        if has_claim(t, k) && k != c.proof@ {
            let i = choose|i: int| 0 <= i < t.len() && #[trigger] t[i].proof@ == k;
            assert(s[i].proof@ == k);
        }
        if has_claim(s, k) {
            let i = choose|i: int| 0 <= i < s.len() && #[trigger] s[i].proof@ == k;
            assert(t[i].proof@ == k);
        }
        if k == c.proof@ {
            assert(t[s.len() as int].proof@ == k);
        }
    }
    assert forall|k: Seq<u8>| #[trigger] claims_view(t).contains_key(k) implies claims_view(t)[k] == claims_view(s).insert(c.proof@, (c.owner, c.block))[k] by {
        let i = choose|i: int| 0 <= i < t.len() && #[trigger] t[i].proof@ == k;
        lemma_claim_at(t, i);
        if i < s.len() {
            assert(s[i] == t[i]);
            lemma_claim_at(s, i);
        }
    }
    assert(claims_view(t) =~= claims_view(s).insert(c.proof@, (c.owner, c.block)));
}

proof fn lemma_remove_claim(s: Seq<Claim>, i: int)
    requires
        distinct_proofs(s),
        0 <= i < s.len(),
    ensures
        distinct_proofs(s.remove(i)),
        !has_claim(s.remove(i), s[i].proof@),
        claims_view(s.remove(i)) == claims_view(s).remove(s[i].proof@),
{
    let t = s.remove(i);
    let gone = s[i].proof@;
    assert forall|a: int, b: int| 0 <= a < b < t.len() implies #[trigger] t[a].proof@ != #[trigger] t[b].proof@ by {
        let sa = if a < i { a } else { a + 1 };
        let sb = if b < i { b } else { b + 1 };
        assert(t[a] == s[sa]);
        assert(t[b] == s[sb]);
    }
    assert forall|a: int| 0 <= a < t.len() implies #[trigger] t[a].proof@ != gone by {
        let sa = if a < i { a } else { a + 1 };
        assert(t[a] == s[sa]);
    }
    assert forall|k: Seq<u8>| #[trigger] claims_view(t).contains_key(k) <==> claims_view(s).remove(gone).contains_key(k) by {
        if has_claim(t, k) {
            let a = choose|a: int| 0 <= a < t.len() && #[trigger] t[a].proof@ == k;
            let sa = if a < i { a } else { a + 1 };
            assert(s[sa].proof@ == k);
        }
        if has_claim(s, k) && k != gone {
            let a = choose|a: int| 0 <= a < s.len() && #[trigger] s[a].proof@ == k;
            assert(a != i);
            let ta = if a < i { a } else { a - 1 };
            assert(t[ta].proof@ == k);
        }
    }
    assert forall|k: Seq<u8>| #[trigger] claims_view(t).contains_key(k) implies claims_view(t)[k] == claims_view(s)[k] by {
        let a = choose|a: int| 0 <= a < t.len() && #[trigger] t[a].proof@ == k;
        let sa = if a < i { a } else { a + 1 };
        assert(t[a] == s[sa]);
        lemma_claim_at(t, a);
        lemma_claim_at(s, sa);
    }
    assert(claims_view(t) =~= claims_view(s).remove(gone));
}

/// Whether two byte strings are equal.
fn bytes_eq(a: &[u8], b: &[u8]) -> (r: bool)
    ensures
        r == (a@ == b@),
{
    if a.len() != b.len() {
        return false;
    }
    let mut i: usize = 0;
    while i < a.len()
        invariant
            a@.len() == b@.len(),
            i <= a@.len(),
            forall|j: int| 0 <= j < i ==> a@[j] == b@[j],
        decreases a@.len() - i,
    {
        if a[i] != b[i] {
            assert(a@[i as int] != b@[i as int]);
            return false;
        }
        i = i + 1;
    }
    assert(a@ =~= b@);
    true
}

/// The proof-of-existence registry. Its claims are kept in a vector, searched
/// by their bytes: vstd specifies std's ordered and hashed maps only for keys
/// with a comparison or hashing model, such as integers, and byte strings have none.
pub struct Poe {
    claims: Vec<Claim>,
    max_claim_length: u8,
    events: Vec<PoeEvent>,
}

impl View for Poe {
    type V = PoeModel;

    closed spec fn view(&self) -> PoeModel {
        PoeModel {
            proofs: claims_view(self.claims@),
            max_claim_length: self.max_claim_length,
            events: self.events@.map_values(|e: PoeEvent| e@),
        }
    }
}

impl Poe {
    /// The registry's own invariant, which every call keeps.
    pub closed spec fn wf(&self) -> bool {
        distinct_proofs(self.claims@)
    }

    /// An empty registry that accepts proofs of up to `max_claim_length` bytes.
    pub fn new(max_claim_length: u8) -> (s: Self)
        ensures
            s.wf(),
            s@ == (PoeModel { proofs: Map::empty(), max_claim_length, events: Seq::empty() }),
    {
        let s = Poe { claims: Vec::new(), max_claim_length, events: Vec::new() };
        assert(claims_view(s.claims@) =~= Map::empty());
        assert(s.events@.map_values(|e: PoeEvent| e@) =~= Seq::empty());
        s
    }

    /// The longest proof the registry accepts.
    pub fn max_claim_length(&self) -> (r: u8)
        ensures
            r == self@.max_claim_length,
    {
        self.max_claim_length
    }

    /// The index of the claim of `proof`, if there is one.
    fn find(&self, proof: &[u8]) -> (r: Option<usize>)
        requires
            self.wf(),
        ensures
            r is None <==> !self@.proofs.contains_key(proof@),
            r matches Some(i) ==> i < self.claims@.len() && self.claims@[i as int].proof@ == proof@
                && self@.proofs[proof@] == (self.claims@[i as int].owner, self.claims@[i as int].block),
    {
        let mut i: usize = 0;
        while i < self.claims.len()
            invariant
                self.wf(),
                i <= self.claims@.len(),
                forall|j: int| 0 <= j < i ==> #[trigger] self.claims@[j].proof@ != proof@,
            decreases self.claims@.len() - i,
        {
            if bytes_eq(self.claims[i].proof.as_slice(), proof) {
                proof {
                    lemma_claim_at(self.claims@, i as int);
                }
                return Some(i);
            }
            i = i + 1;
        }
        None
    }

    /// The owner of `proof` and the block of its claim; `(0, 0)` for a proof
    /// nobody claimed.
    pub fn proofs(&self, proof: &[u8]) -> (r: (AccountId, BlockNumber))
        requires
            self.wf(),
        ensures
            r == (if self@.proofs.contains_key(proof@) { self@.proofs[proof@] } else { (0, 0) }),
    {
        match self.find(proof) {
            Some(i) => (self.claims[i].owner, self.claims[i].block),
            None => (0, 0),
        }
    }

    /// The reports so far, oldest first.
    pub fn events(&self) -> (r: &Vec<PoeEvent>)
        ensures
            r@.map_values(|e: PoeEvent| e@) == self@.events,
    {
        &self.events
    }

    fn deposit_event(&mut self, e: PoeEvent)
        ensures
            final(self).claims == old(self).claims,
            final(self).max_claim_length == old(self).max_claim_length,
            final(self).events@.map_values(|e: PoeEvent| e@) == old(self).events@.map_values(|e: PoeEvent| e@).push(e@),
    {
        self.events.push(e);
        assert(self.events@.map_values(|e: PoeEvent| e@) =~= old(self).events@.map_values(|e: PoeEvent| e@).push(e@));
    }

    /// Claims `proof` for the signer of `origin` in block `now`.
    pub fn create_claim(&mut self, origin: Origin, proof: Vec<u8>, now: BlockNumber) -> (r: Result<(), PoeError>)
        requires
            old(self).wf(),
        ensures
            final(self).wf(),
            match origin {
                Origin::Signed(sender) => match old(self)@.create_refusal(sender, proof@) {
                    Some(e) => r == Err::<(), PoeError>(e) && final(self)@ == old(self)@,
                    None => r == Ok::<(), PoeError>(()) && final(self)@ == old(self)@.after_create(sender, proof@, now),
                },
                _ => r == Err::<(), PoeError>(PoeError::BadOrigin) && final(self)@ == old(self)@,
            },
    {
        let sender = match ensure_signed(origin) {
            Ok(s) => s,
            Err(_) => return Err(PoeError::BadOrigin),
        };
        if proof.len() > self.max_claim_length as usize {
            return Err(PoeError::ClaimTooLong);
        }
        if self.find(proof.as_slice()).is_some() {
            return Err(PoeError::ProofAlreadyClaimed);
        }
        let event = PoeEvent::ClaimCreated(sender, proof.clone());
        let claim = Claim { proof, owner: sender, block: now };
        proof {
            lemma_push_claim(self.claims@, claim);
        }
        self.claims.push(claim);
        self.deposit_event(event);
        Ok(())
    }

    /// Revokes the claim of `proof` by the signer of `origin`, who must own it.
    pub fn revoke_claim(&mut self, origin: Origin, proof: Vec<u8>) -> (r: Result<(), PoeError>)
        requires
            old(self).wf(),
        ensures
            final(self).wf(),
            match origin {
                Origin::Signed(sender) => match old(self)@.owner_refusal(sender, proof@) {
                    Some(e) => r == Err::<(), PoeError>(e) && final(self)@ == old(self)@,
                    None => r == Ok::<(), PoeError>(()) && final(self)@ == old(self)@.after_revoke(sender, proof@),
                },
                _ => r == Err::<(), PoeError>(PoeError::BadOrigin) && final(self)@ == old(self)@,
            },
    {
        let sender = match ensure_signed(origin) {
            Ok(s) => s,
            Err(_) => return Err(PoeError::BadOrigin),
        };
        let index = match self.find(proof.as_slice()) {
            Some(i) => i,
            None => return Err(PoeError::NoSuchProof),
        };
        let owner = self.claims[index].owner;
        if sender != owner {
            return Err(PoeError::NotProofOwner);
        }
        proof {
            lemma_remove_claim(self.claims@, index as int);
        }
        self.claims.remove(index);
        self.deposit_event(PoeEvent::ClaimRevoked(sender, proof));
        Ok(())
    }

    /// Hands the claim of `proof` from the signer of `origin`, who must own it,
    /// to `account_id`, as of block `now`.
    pub fn transfer_claim(&mut self, origin: Origin, proof: Vec<u8>, account_id: AccountId, now: BlockNumber) -> (r: Result<(), PoeError>)
        requires
            old(self).wf(),
        ensures
            final(self).wf(),
            match origin {
                Origin::Signed(sender) => match old(self)@.owner_refusal(sender, proof@) {
                    Some(e) => r == Err::<(), PoeError>(e) && final(self)@ == old(self)@,
                    None => r == Ok::<(), PoeError>(()) && final(self)@ == old(self)@.after_transfer(proof@, account_id, now),
                },
                _ => r == Err::<(), PoeError>(PoeError::BadOrigin) && final(self)@ == old(self)@,
            },
    {
        let sender = match ensure_signed(origin) {
            Ok(s) => s,
            Err(_) => return Err(PoeError::BadOrigin),
        };
        let index = match self.find(proof.as_slice()) {
            Some(i) => i,
            None => return Err(PoeError::NoSuchProof),
        };
        let owner = self.claims[index].owner;
        if sender != owner {
            return Err(PoeError::NotProofOwner);
        }
        let ghost before = self.claims@;
        proof {
            lemma_remove_claim(before, index as int);
        }
        self.claims.remove(index);
        let event = PoeEvent::TransferClaim(proof.clone(), account_id);
        let claim = Claim { proof, owner: account_id, block: now };
        proof {
            lemma_push_claim(self.claims@, claim);
            assert(claims_view(before).remove(claim.proof@).insert(claim.proof@, (account_id, now))
                =~= claims_view(before).insert(claim.proof@, (account_id, now)));
        }
        self.claims.push(claim);
        self.deposit_event(event);
        Ok(())
    }
}


/// A claim that was just made cannot be made again, by anyone.
pub proof fn lemma_claim_is_exclusive(m: PoeModel, sender: AccountId, other: AccountId, proof: Seq<u8>, now: BlockNumber)
    requires
        m.create_refusal(sender, proof) is None,
    ensures
        m.after_create(sender, proof, now).create_refusal(other, proof) == Some(PoeError::ProofAlreadyClaimed),
        m.after_create(sender, proof, now).proofs[proof] == (sender, now),
{
}

/// Claiming a proof and then revoking it restores the claims as they were.
pub proof fn lemma_create_then_revoke(m: PoeModel, sender: AccountId, proof: Seq<u8>, now: BlockNumber)
    requires
        m.create_refusal(sender, proof) is None,
    ensures
        m.after_create(sender, proof, now).owner_refusal(sender, proof) is None,
        m.after_create(sender, proof, now).after_revoke(sender, proof).proofs == m.proofs,
{
    assert(m.proofs.insert(proof, (sender, now)).remove(proof) =~= m.proofs);
}

/// After a claim is handed over, the new owner may revoke it and the former
/// owner may not.
pub proof fn lemma_transfer_moves_ownership(m: PoeModel, sender: AccountId, proof: Seq<u8>, dest: AccountId, now: BlockNumber)
    requires
        m.owner_refusal(sender, proof) is None,
        dest != sender,
    ensures
        m.after_transfer(proof, dest, now).owner_refusal(dest, proof) is None,
        m.after_transfer(proof, dest, now).owner_refusal(sender, proof) == Some(PoeError::NotProofOwner),
{
}


/// A claim is refused exactly as follows: `ClaimTooLong` for a proof longer
/// than the limit, `ProofAlreadyClaimed` for a proof that is held already (by
/// anyone); any other signed claim is accepted, whatever else the sender holds,
/// and then records only that proof, as the sender's, in that block.
pub proof fn lemma_claim_accepted_when_free(m: PoeModel, sender: AccountId, proof: Seq<u8>, now: BlockNumber)
    ensures
        proof.len() > m.max_claim_length ==> m.create_refusal(sender, proof) == Some(PoeError::ClaimTooLong),
        proof.len() <= m.max_claim_length && m.proofs.contains_key(proof) ==> m.create_refusal(sender, proof) == Some(
            PoeError::ProofAlreadyClaimed,
        ),
        proof.len() <= m.max_claim_length && !m.proofs.contains_key(proof) ==> m.create_refusal(sender, proof) is None,
        m.after_create(sender, proof, now).proofs == m.proofs.insert(proof, (sender, now)),
        m.after_create(sender, proof, now).max_claim_length == m.max_claim_length,
{
}

/// Revoking or handing over a claim is refused exactly as follows:
/// `NoSuchProof` for a proof nobody holds, `NotProofOwner` when another account
/// holds it; the holder may always do either, and then only that proof's entry
/// changes: it is removed, or becomes the new owner's as of the given block.
pub proof fn lemma_holder_controls_claim(m: PoeModel, sender: AccountId, proof: Seq<u8>, dest: AccountId, now: BlockNumber)
    ensures
        !m.proofs.contains_key(proof) ==> m.owner_refusal(sender, proof) == Some(PoeError::NoSuchProof),
        m.proofs.contains_key(proof) && m.proofs[proof].0 != sender ==> m.owner_refusal(sender, proof) == Some(
            PoeError::NotProofOwner,
        ),
        m.proofs.contains_key(proof) && m.proofs[proof].0 == sender ==> m.owner_refusal(sender, proof) is None,
        m.after_revoke(sender, proof).proofs == m.proofs.remove(proof),
        m.after_transfer(proof, dest, now).proofs == m.proofs.insert(proof, (dest, now)),
{
}

} // verus!
