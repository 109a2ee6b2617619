//! The kitty registry: kitties are created with pseudo-random DNA, owned,
//! transferred and bred from two parents of the same owner.

use vstd::prelude::*;
use std::collections::BTreeMap;
use crate::origin::{AccountId, Origin, ensure_signed};
use crate::hashing::{random_value, spec_random_value};

verus! {

/// The index of a kitty; kitties are numbered from 0 in the order they are made.
pub type KittyIndex = u32;

/// An amount of the currency that kitties reserve.
pub type Balance = u64;

/// A kitty: its 16 bytes of DNA.
#[derive(Clone, Copy, Debug, PartialEq, Eq)]
pub struct Kitty(pub [u8; 16]);

impl View for Kitty {
    type V = Seq<u8>;

    open spec fn view(&self) -> Seq<u8> {
        self.0@
    }
}

/// Why a kitty call was refused.
#[derive(Clone, Copy, Debug, PartialEq, Eq, Structural)]
pub enum KittyError {
    /// The call was not signed.
    BadOrigin,
    /// Every kitty index is taken.
    KittiesCountOverflow,
    /// No kitty has that index.
    InvalidKittyId,
    /// A kitty cannot be bred with itself.
    RequireDifferentParent,
    /// The caller does not own the kitty.
    NotKittyOwner,
    /// The caller could not reserve the deposit for a new kitty.
    NotEnoughMoney,
    /// A parent kitty does not exist.
    KittyNotExists,
    /// A kitty cannot be transferred to its owner.
    TransferToSelf,
}

/// What the registry reports of a successful call.
#[derive(Clone, Copy, Debug, PartialEq, Eq, Structural)]
pub enum KittyEvent {
    /// The account made the kitty with that index.
    Created(AccountId, KittyIndex),
    /// The first account gave the kitty to the second.
    Transferred(AccountId, AccountId, KittyIndex),
}

/// The content of the registry's storage.
#[verifier::ext_equal]
pub struct KittiesModel {
    /// The DNA of each kitty.
    pub kitties: Map<KittyIndex, Seq<u8>>,
    /// How many kitties were made: the index the next one gets.
    pub kitties_count: KittyIndex,
    /// The owner of each kitty.
    pub kitty_owners: Map<KittyIndex, AccountId>,
    /// Per account: how many kitties it made.
    pub owned_kitties_number: Map<AccountId, KittyIndex>,
    /// Per account: the indices of the kitties it made, in order.
    pub owned_kitties: Map<AccountId, Seq<KittyIndex>>,
    /// The two parents of each bred kitty.
    pub kitty_parents: Map<KittyIndex, (KittyIndex, KittyIndex)>,
    /// Per kitty: the kitties it was bred with as first parent, in order.
    pub kitty_object: Map<KittyIndex, Seq<KittyIndex>>,
    /// Per bred kitty: its elder siblings of the same two parents.
    pub kitty_brother: Map<KittyIndex, Seq<KittyIndex>>,
    /// Per pair of parents: the kitties bred from them, in order.
    pub kitty_children: Map<(KittyIndex, KittyIndex), Seq<KittyIndex>>,
    /// The deposit that every new kitty reserves.
    pub new_kitty_reserve: Balance,
    /// The events reported so far, oldest first.
    pub events: Seq<KittyEvent>,
}

/// The entry of `m` at `k`, or the empty sequence where there is none.
pub open spec fn seq_at<K>(m: Map<K, Seq<KittyIndex>>, k: K) -> Seq<KittyIndex> {
    if m.contains_key(k) {
        m[k]
    } else {
        Seq::empty()
    }
}

/// `s` without the occurrences of `x`, the rest in order.
pub open spec fn without(s: Seq<KittyIndex>, x: KittyIndex) -> Seq<KittyIndex>
    decreases s.len(),
{
    if s.len() == 0 {
        Seq::empty()
    } else if s.last() == x {
        without(s.drop_last(), x)
    } else {
        without(s.drop_last(), x).push(s.last())
    }
}

/// The DNA bred from `dna1` and `dna2` under `selector`, byte by byte.
pub open spec fn bred_dna(dna1: Seq<u8>, dna2: Seq<u8>, selector: Seq<u8>) -> Seq<u8> {
    Seq::new(16, |i: int| spec_combine_dna(dna1[i], dna2[i], selector[i]))
}

/// One byte of a bred kitty's DNA: the bits of `dna1` where `selector`
/// is set and the bits of `dna2` where it is clear.
pub open spec fn spec_combine_dna(dna1: u8, dna2: u8, selector: u8) -> u8 {
    (selector & dna1) | (!selector & dna2)
}

impl KittiesModel {
    /// Every index below the count names a kitty of 16 DNA bytes with an owner,
    /// and no other index does.
    pub open spec fn wf(self) -> bool {
        &&& forall|i: KittyIndex| #[trigger] self.kitties.contains_key(i) <==> i < self.kitties_count
        &&& forall|i: KittyIndex| #[trigger] self.kitty_owners.contains_key(i) <==> i < self.kitties_count
        &&& forall|i: KittyIndex| #[trigger] self.kitties.contains_key(i) ==> self.kitties[i].len() == 16
        &&& forall|a: AccountId| #[trigger] self.owned_kitties_number.contains_key(a) <==> self.owned_kitties.contains_key(a)
        &&& forall|a: AccountId| #[trigger] self.owned_kitties_number.contains_key(a) ==> {
            &&& self.owned_kitties_number[a] <= self.kitties_count
            &&& self.owned_kitties_number[a] == self.owned_kitties[a].len()
        }
    }

    /// How many kitties `who` made; 0 if none.
    pub open spec fn owned_number_of(self, who: AccountId) -> KittyIndex {
        if self.owned_kitties_number.contains_key(who) {
            self.owned_kitties_number[who]
        } else {
            0
        }
    }

    /// The kitties made by `who`.
    pub open spec fn owned_of(self, who: AccountId) -> Seq<KittyIndex> {
        seq_at(self.owned_kitties, who)
    }

    /// The parents of `k`, or `(0, 0)` where none are recorded.
    pub open spec fn parents_of(self, k: KittyIndex) -> (KittyIndex, KittyIndex) {
        if self.kitty_parents.contains_key(k) {
            self.kitty_parents[k]
        } else {
            (0, 0)
        }
    }

    /// The registry after `owner` received the new kitty `id` of DNA `dna`.
    pub open spec fn with_kitty(self, owner: AccountId, id: KittyIndex, dna: Seq<u8>) -> Self {
        KittiesModel {
            kitties: self.kitties.insert(id, dna),
            kitties_count: (id + 1) as KittyIndex,
            kitty_owners: self.kitty_owners.insert(id, owner),
            owned_kitties_number: self.owned_kitties_number.insert(owner, (self.owned_number_of(owner) + 1) as KittyIndex),
            owned_kitties: self.owned_kitties.insert(owner, self.owned_of(owner).push(id)),
            ..self
        }
    }

    /// The registry after reporting `e`.
    pub open spec fn with_event(self, e: KittyEvent) -> Self {
        KittiesModel { events: self.events.push(e), ..self }
    }

    /// The registry after `id` joined the children of the pair `(k1, k2)`.
    pub open spec fn with_child(self, id: KittyIndex, k1: KittyIndex, k2: KittyIndex) -> Self {
        KittiesModel {
            kitty_children: self.kitty_children.insert(
                (k1, k2),
                seq_at(self.kitty_children, (k1, k2)).push(id),
            ),
            ..self
        }
    }

    /// The registry after the siblings of `id` were recorded: the other
    /// children of its recorded parents, or none if they have no children.
    pub open spec fn with_brothers(self, id: KittyIndex) -> Self {
        let p = self.parents_of(id);
        KittiesModel {
            kitty_brother: self.kitty_brother.insert(
                id,
                if self.kitty_children.contains_key(p) {
                    without(self.kitty_children[p], id)
                } else {
                    Seq::empty()
                },
            ),
            ..self
        }
    }

    /// The registry after the lineage of the new kitty `id` of `k1` and `k2`
    /// was recorded: its parents, `k2` as a partner of `k1`, `id` as a child of
    /// the pair, and its siblings.
    pub open spec fn with_lineage(self, id: KittyIndex, k1: KittyIndex, k2: KittyIndex) -> Self {
        KittiesModel {
            kitty_parents: self.kitty_parents.insert(id, (k1, k2)),
            kitty_object: self.kitty_object.insert(k1, seq_at(self.kitty_object, k1).push(k2)),
            ..self
        }.with_child(id, k1, k2).with_brothers(id)
    }

    /// The registry after the owner of `id` became `to`.
    pub open spec fn with_owner(self, id: KittyIndex, to: AccountId) -> Self {
        KittiesModel { kitty_owners: self.kitty_owners.insert(id, to), ..self }
    }

    /// Why `sender` may not give kitty `id` to `to`, if it may not.
    pub open spec fn transfer_refusal(self, sender: AccountId, to: AccountId, id: KittyIndex) -> Option<KittyError> {
        if !self.kitty_owners.contains_key(id) {
            Some(KittyError::InvalidKittyId)
        } else if self.kitty_owners[id] != sender {
            Some(KittyError::NotKittyOwner)
        } else if to == sender {
            Some(KittyError::TransferToSelf)
        } else {
            None
        }
    }

    /// Why `sender` may not breed `k1` with `k2`, if it may not.
    pub open spec fn breed_refusal(self, sender: AccountId, k1: KittyIndex, k2: KittyIndex) -> Option<KittyError> {
        if k1 == k2 {
            Some(KittyError::RequireDifferentParent)
        } else if !self.kitty_owners.contains_key(k1) || !self.kitty_owners.contains_key(k2) {
            Some(KittyError::KittyNotExists)
        } else if self.kitty_owners[k1] != sender || self.kitty_owners[k2] != sender {
            Some(KittyError::NotKittyOwner)
        } else if !self.kitties.contains_key(k1) || !self.kitties.contains_key(k2) {
            Some(KittyError::InvalidKittyId)
        } else if self.kitties_count == KittyIndex::MAX {
            Some(KittyError::KittiesCountOverflow)
        } else {
            None
        }
    }

    /// The registry after the lineage of the next kitty bred from `k1` and `k2`
    /// was recorded, its deposit not yet reserved.
    pub open spec fn breeding(self, k1: KittyIndex, k2: KittyIndex) -> Self {
        self.with_lineage(self.kitties_count, k1, k2)
    }

    /// The DNA of the next kitty that `sender` breeds from `k1` and `k2`, with
    /// randomness `seed` at extrinsic `extrinsic_index`.
    pub open spec fn offspring_dna(
        self,
        sender: AccountId,
        k1: KittyIndex,
        k2: KittyIndex,
        seed: Seq<u8>,
        extrinsic_index: Option<u32>,
    ) -> Seq<u8> {
        bred_dna(self.kitties[k1], self.kitties[k2], spec_random_value(seed, sender, extrinsic_index))
    }
}

/// What `do_breed` leaves: the refusal and no change; or, after `reserve` was
/// asked for the new kitty's deposit from `sender`, the bred kitty `id` with its
/// lineage and record where it granted that, and otherwise `NotEnoughMoney`
/// with the lineage recorded.
pub open spec fn breed_result<F: FnOnce(AccountId, Balance) -> bool>(
    old_m: KittiesModel,
    new_m: KittiesModel,
    r: Result<KittyIndex, KittyError>,
    sender: AccountId,
    k1: KittyIndex,
    k2: KittyIndex,
    seed: Seq<u8>,
    extrinsic_index: Option<u32>,
    reserve: F,
) -> bool {
    match old_m.breed_refusal(sender, k1, k2) {
        Some(e) => r == Err::<KittyIndex, KittyError>(e) && new_m == old_m,
        None => {
            let id = old_m.kitties_count;
            let mid = old_m.breeding(k1, k2);
            let dna = old_m.offspring_dna(sender, k1, k2, seed, extrinsic_index);
            exists|granted: bool| {
                &&& #[trigger] call_ensures(reserve, (sender, old_m.new_kitty_reserve), granted)
                &&& granted ==> r == Ok::<KittyIndex, KittyError>(id) && new_m == mid.with_kitty(sender, id, dna)
                &&& !granted ==> r == Err::<KittyIndex, KittyError>(KittyError::NotEnoughMoney) && new_m == mid
            }
        },
    }
}

/// The entries of `m` by the views of its vectors.
pub open spec fn seqs_view<K>(m: Map<K, Vec<KittyIndex>>) -> Map<K, Seq<KittyIndex>> {
    m.map_values(|v: Vec<KittyIndex>| v@)
}

/// The entries of `m` by the DNA of its kitties.
pub open spec fn dna_view(m: Map<KittyIndex, Kitty>) -> Map<KittyIndex, Seq<u8>> {
    m.map_values(|k: Kitty| k@)
}

/// The kitty registry.
pub struct Kitties {
    kitties: BTreeMap<KittyIndex, Kitty>,
    kitties_count: KittyIndex,
    kitty_owners: BTreeMap<KittyIndex, AccountId>,
    owned_kitties_number: BTreeMap<AccountId, KittyIndex>,
    owned_kitties: BTreeMap<AccountId, Vec<KittyIndex>>,
    kitty_parents: BTreeMap<KittyIndex, (KittyIndex, KittyIndex)>,
    kitty_object: BTreeMap<KittyIndex, Vec<KittyIndex>>,
    kitty_brother: BTreeMap<KittyIndex, Vec<KittyIndex>>,
    kitty_children: BTreeMap<(KittyIndex, KittyIndex), Vec<KittyIndex>>,
    new_kitty_reserve: Balance,
    events: Vec<KittyEvent>,
}

impl View for Kitties {
    type V = KittiesModel;

    closed spec fn view(&self) -> KittiesModel {
        KittiesModel {
            kitties: dna_view(self.kitties@),
            kitties_count: self.kitties_count,
            kitty_owners: self.kitty_owners@,
            owned_kitties_number: self.owned_kitties_number@,
            owned_kitties: seqs_view(self.owned_kitties@),
            kitty_parents: self.kitty_parents@,
            kitty_object: seqs_view(self.kitty_object@),
            kitty_brother: seqs_view(self.kitty_brother@),
            kitty_children: seqs_view(self.kitty_children@),
            new_kitty_reserve: self.new_kitty_reserve,
            events: self.events@,
        }
    }
}

/// Mixes two parent DNA bytes under a selector byte.
pub fn combine_dna(dna1: u8, dna2: u8, selector: u8) -> (r: u8)
    ensures
        r == spec_combine_dna(dna1, dna2, selector),
{
    (selector & dna1) | (!selector & dna2)
}

/// Takes the vector of `m` at `k` out of `m`, or an empty one where there is none.
fn take_vec<K: Ord>(m: &mut BTreeMap<K, Vec<KittyIndex>>, k: &K) -> (v: Vec<KittyIndex>)
    requires
        vstd::laws_cmp::obeys_cmp::<K>(),
    ensures
        final(m)@ == old(m)@.remove(*k),
        v@ == seq_at(seqs_view(old(m)@), *k),
{
    match m.remove(k) {
        Some(v) => v,
        None => Vec::new(),
    }
}

impl Kitties {
    /// An empty registry whose new kitties reserve `new_kitty_reserve` each.
    pub fn new(new_kitty_reserve: Balance) -> (s: Self)
        ensures
            s@ == (KittiesModel {
                kitties: Map::empty(),
                kitties_count: 0,
                kitty_owners: Map::empty(),
                owned_kitties_number: Map::empty(),
                owned_kitties: Map::empty(),
                kitty_parents: Map::empty(),
                kitty_object: Map::empty(),
                kitty_brother: Map::empty(),
                kitty_children: Map::empty(),
                new_kitty_reserve,
                events: Seq::empty(),
            }),
            s@.wf(),
    {
        let s = Kitties {
            kitties: BTreeMap::new(),
            kitties_count: 0,
            kitty_owners: BTreeMap::new(),
            owned_kitties_number: BTreeMap::new(),
            owned_kitties: BTreeMap::new(),
            kitty_parents: BTreeMap::new(),
            kitty_object: BTreeMap::new(),
            kitty_brother: BTreeMap::new(),
            kitty_children: BTreeMap::new(),
            new_kitty_reserve,
            events: Vec::new(),
        };
        assert(dna_view(s.kitties@) =~= Map::empty());
        assert(seqs_view(s.owned_kitties@) =~= Map::empty());
        assert(seqs_view(s.kitty_object@) =~= Map::empty());
        assert(seqs_view(s.kitty_brother@) =~= Map::empty());
        assert(seqs_view(s.kitty_children@) =~= Map::empty());
        s
    }

    /// Records the new kitty `kitty_id` with DNA `kitty` as made by `owner`.
    fn insert_kitty(&mut self, owner: AccountId, kitty_id: KittyIndex, kitty: Kitty)
        requires
            kitty_id < KittyIndex::MAX,
            old(self)@.owned_number_of(owner) < KittyIndex::MAX,
        ensures
            final(self)@ == old(self)@.with_kitty(owner, kitty_id, kitty@),
            old(self)@.wf() && kitty_id == old(self)@.kitties_count ==> final(self)@.wf(),
    {
        let number = match self.owned_kitties_number.get(&owner) {
            Some(n) => *n,
            None => 0,
        };
        assert(number == old(self)@.owned_number_of(owner));
        self.kitties.insert(kitty_id, kitty);
        self.kitties_count = kitty_id + 1;
        self.kitty_owners.insert(kitty_id, owner);
        self.owned_kitties_number.insert(owner, number + 1);
        let mut number = take_vec(&mut self.owned_kitties, &owner);
        number.push(kitty_id);
        self.owned_kitties.insert(owner, number);
        proof {
            assert(dna_view(self.kitties@) =~= dna_view(old(self).kitties@).insert(kitty_id, kitty@));
            assert(seqs_view(self.owned_kitties@) =~= seqs_view(old(self).owned_kitties@).insert(
                owner,
                old(self)@.owned_of(owner).push(kitty_id),
            ));
            if old(self)@.wf() && kitty_id == old(self)@.kitties_count {
                lemma_new_kitty_is_owned(old(self)@, owner, kitty@);
            }
        }
    }

    /// The index the next kitty gets; `KittiesCountOverflow` where every index is taken.
    pub fn next_kitty_id(&self) -> (r: Result<KittyIndex, KittyError>)
        ensures
            self@.kitties_count == KittyIndex::MAX ==> r == Err::<KittyIndex, KittyError>(
                KittyError::KittiesCountOverflow,
            ),
            self@.kitties_count < KittyIndex::MAX ==> r == Ok::<KittyIndex, KittyError>(
                self@.kitties_count,
            ),
    {
        let kitty_id = self.kitties_count;
        if kitty_id == KittyIndex::MAX {
            return Err(KittyError::KittiesCountOverflow);
        }
        Ok(kitty_id)
    }

    /// Adds `kitty_id` to the children of the pair `(kitty_id_1, kitty_id_2)`.
    fn check_children(&mut self, kitty_id: KittyIndex, kitty_id_1: KittyIndex, kitty_id_2: KittyIndex)
        ensures
            final(self)@ == old(self)@.with_child(kitty_id, kitty_id_1, kitty_id_2),
    {
        let mut children = take_vec(&mut self.kitty_children, &(kitty_id_1, kitty_id_2));
        children.push(kitty_id);
        self.kitty_children.insert((kitty_id_1, kitty_id_2), children);
        proof {
            assert(seqs_view(self.kitty_children@) =~= seqs_view(old(self).kitty_children@).insert(
                (kitty_id_1, kitty_id_2),
                seq_at(old(self)@.kitty_children, (kitty_id_1, kitty_id_2)).push(kitty_id),
            ));
        }
    }

    /// Records as the siblings of `kitty_id` the other children of its recorded parents.
    fn check_brother(&mut self, kitty_id: KittyIndex)
        ensures
            final(self)@ == old(self)@.with_brothers(kitty_id),
    {
        let parents = match self.kitty_parents.get(&kitty_id) {
            Some(p) => *p,
            None => (0, 0),
        };
        let ghost expected = if old(self)@.kitty_children.contains_key(parents) {
            without(old(self)@.kitty_children[parents], kitty_id)
        } else {
            Seq::empty()
        };
        let mut reserve_val: Vec<KittyIndex> = Vec::new();
        match self.kitty_children.get(&parents) {
            Some(val) => {
                let n = val.len();
                let mut i: usize = 0;
                while i < n
                    invariant
                        n == val@.len(),
                        i <= n,
                        reserve_val@ == without(val@.take(i as int), kitty_id),
                    decreases n - i,
                {
                    let v = val[i];
                    if v != kitty_id {
                        reserve_val.push(v);
                    }
                    proof {
                        assert(val@.take(i + 1).drop_last() =~= val@.take(i as int));
                    }
                    i = i + 1;
                }
                assert(val@.take(n as int) =~= val@);
            },
            None => {},
        }
        assert(reserve_val@ =~= expected);
        self.kitty_brother.insert(kitty_id, reserve_val);
        proof {
            assert(seqs_view(self.kitty_brother@) =~= seqs_view(old(self).kitty_brother@).insert(
                kitty_id,
                expected,
            ));
        }
    }

    /// Breeds the DNA of the new kitty `kitty_id` from the parents `kitty_id_1`
    /// (DNA `kitty1`) and `kitty_id_2` (DNA `kitty2`) under `selector`, and
    /// records its lineage.
    pub fn record_lineage(
        &mut self,
        kitty_id: KittyIndex,
        kitty_id_1: KittyIndex,
        kitty_id_2: KittyIndex,
        kitty1: &Kitty,
        kitty2: &Kitty,
        selector: &[u8; 16],
    ) -> (child: Kitty)
        ensures
            child@ == bred_dna(kitty1@, kitty2@, selector@),
            final(self)@ == old(self)@.with_lineage(kitty_id, kitty_id_1, kitty_id_2),
            old(self)@.wf() ==> final(self)@.wf(),
    {
        let mut new_dna = [0u8; 16];
        for i in 0..16usize
            invariant
                forall|j: int|
                    0 <= j < i ==> new_dna@[j] == spec_combine_dna(kitty1.0@[j], kitty2.0@[j], selector@[j]),
        {
            new_dna[i] = combine_dna(kitty1.0[i], kitty2.0[i], selector[i]);
        }
        assert(new_dna@ =~= bred_dna(kitty1@, kitty2@, selector@));
        self.kitty_parents.insert(kitty_id, (kitty_id_1, kitty_id_2));
        let mut object = take_vec(&mut self.kitty_object, &kitty_id_1);
        object.push(kitty_id_2);
        self.kitty_object.insert(kitty_id_1, object);
        proof {
            assert(seqs_view(self.kitty_object@) =~= seqs_view(old(self).kitty_object@).insert(
                kitty_id_1,
                seq_at(old(self)@.kitty_object, kitty_id_1).push(kitty_id_2),
            ));
        }
        self.check_children(kitty_id, kitty_id_1, kitty_id_2);
        self.check_brother(kitty_id);
        assert(self@.kitties == old(self)@.kitties && self@.kitty_owners == old(self)@.kitty_owners
            && self@.owned_kitties == old(self)@.owned_kitties
            && self@.owned_kitties_number == old(self)@.owned_kitties_number
            && self@.kitties_count == old(self)@.kitties_count);
        Kitty(new_dna)
    }

    /// Gives `owner` the new kitty `kitty_id` of DNA `kitty` if its deposit
    /// was `reserved`; `NotEnoughMoney` and no change otherwise.
    pub fn settle_reserve(&mut self, owner: AccountId, kitty_id: KittyIndex, kitty: Kitty, reserved: bool) -> (r: Result<(), KittyError>)
        requires
            kitty_id < KittyIndex::MAX,
            old(self)@.owned_number_of(owner) < KittyIndex::MAX,
        ensures
            old(self)@.wf() && kitty_id == old(self)@.kitties_count ==> final(self)@.wf(),
            reserved ==> r == Ok::<(), KittyError>(()) && final(self)@ == old(self)@.with_kitty(owner, kitty_id, kitty@),
            !reserved ==> r == Err::<(), KittyError>(KittyError::NotEnoughMoney) && final(self)@ == old(self)@,
    {
        if !reserved {
            return Err(KittyError::NotEnoughMoney);
        }
        self.insert_kitty(owner, kitty_id, kitty);
        Ok(())
    }

    fn deposit_event(&mut self, e: KittyEvent)
        ensures
            final(self)@ == old(self)@.with_event(e),
    {
        self.events.push(e);
    }

    /// The DNA of kitty `kitty_id`, if it exists.
    pub fn kitties(&self, kitty_id: KittyIndex) -> (r: Option<Kitty>)
        ensures
            r is Some <==> self@.kitties.contains_key(kitty_id),
            r matches Some(k) ==> k@ == self@.kitties[kitty_id],
    {
        match self.kitties.get(&kitty_id) {
            Some(k) => Some(*k),
            None => None,
        }
    }

    /// How many kitties were made.
    pub fn kitties_count(&self) -> (r: KittyIndex)
        ensures
            r == self@.kitties_count,
    {
        self.kitties_count
    }

    /// The owner of kitty `kitty_id`, if it exists.
    pub fn kitty_owner(&self, kitty_id: KittyIndex) -> (r: Option<AccountId>)
        ensures
            r == (if self@.kitty_owners.contains_key(kitty_id) {
                Some(self@.kitty_owners[kitty_id])
            } else {
                None
            }),
    {
        match self.kitty_owners.get(&kitty_id) {
            Some(o) => Some(*o),
            None => None,
        }
    }

    /// How many kitties `who` made; 0 if none.
    pub fn owned_kitties_number(&self, who: AccountId) -> (r: KittyIndex)
        ensures
            r == (if self@.owned_kitties_number.contains_key(who) { self@.owned_kitties_number[who] } else { 0 }),
    {
        match self.owned_kitties_number.get(&who) {
            Some(n) => *n,
            None => 0,
        }
    }

    /// The indices of the kitties that `who` made, in order.
    pub fn owned_kitties(&self, who: AccountId) -> (r: Vec<KittyIndex>)
        ensures
            r@ == self@.owned_of(who),
    {
        match self.owned_kitties.get(&who) {
            Some(v) => v.clone(),
            None => Vec::new(),
        }
    }

    /// The parents of `kitty_id`; `(0, 0)` where none are recorded.
    pub fn kitty_parents(&self, kitty_id: KittyIndex) -> (r: (KittyIndex, KittyIndex))
        ensures
            r == self@.parents_of(kitty_id),
    {
        match self.kitty_parents.get(&kitty_id) {
            Some(p) => *p,
            None => (0, 0),
        }
    }

    /// The kitties that `kitty_id` was bred with as first parent, in order.
    pub fn kitty_object(&self, kitty_id: KittyIndex) -> (r: Vec<KittyIndex>)
        ensures
            r@ == seq_at(self@.kitty_object, kitty_id),
    {
        match self.kitty_object.get(&kitty_id) {
            Some(v) => v.clone(),
            None => Vec::new(),
        }
    }

    /// The siblings recorded for `kitty_id`.
    pub fn kitty_brother(&self, kitty_id: KittyIndex) -> (r: Vec<KittyIndex>)
        ensures
            r@ == seq_at(self@.kitty_brother, kitty_id),
    {
        match self.kitty_brother.get(&kitty_id) {
            Some(v) => v.clone(),
            None => Vec::new(),
        }
    }

    /// The kitties bred from `kitty_id_1` and `kitty_id_2`, in order.
    pub fn kitty_children(&self, kitty_id_1: KittyIndex, kitty_id_2: KittyIndex) -> (r: Vec<KittyIndex>)
        ensures
            r@ == seq_at(self@.kitty_children, (kitty_id_1, kitty_id_2)),
    {
        match self.kitty_children.get(&(kitty_id_1, kitty_id_2)) {
            Some(v) => v.clone(),
            None => Vec::new(),
        }
    }

    /// The deposit that every new kitty reserves.
    pub fn new_kitty_reserve(&self) -> (r: Balance)
        ensures
            r == self@.new_kitty_reserve,
    {
        self.new_kitty_reserve
    }

    /// The events reported so far, oldest first.
    pub fn events(&self) -> (r: &Vec<KittyEvent>)
        ensures
            r@ == self@.events,
    {
        &self.events
    }

    /// Transfers kitty `kitty_id` from the signer of `origin` to `to`.
    pub fn transfer(&mut self, origin: Origin, to: AccountId, kitty_id: KittyIndex) -> (r: Result<(), KittyError>)
        ensures
            match origin {
                Origin::Signed(sender) => match old(self)@.transfer_refusal(sender, to, kitty_id) {
                    Some(e) => r == Err::<(), KittyError>(e) && final(self)@ == old(self)@,
                    None => r == Ok::<(), KittyError>(()) && final(self)@ == old(self)@.with_owner(
                        kitty_id,
                        to,
                    ).with_event(KittyEvent::Transferred(sender, to, kitty_id)),
                },
                _ => r == Err::<(), KittyError>(KittyError::BadOrigin) && final(self)@ == old(self)@,
            },
            old(self)@.wf() ==> final(self)@.wf(),
    {
        let sender = match ensure_signed(origin) {
            Ok(s) => s,
            Err(_) => return Err(KittyError::BadOrigin),
        };
        let owner = match self.kitty_owner(kitty_id) {
            Some(o) => o,
            None => return Err(KittyError::InvalidKittyId),
        };
        if sender != owner {
            return Err(KittyError::NotKittyOwner);
        }
        if to == sender {
            return Err(KittyError::TransferToSelf);
        }
        self.kitty_owners.insert(kitty_id, to);
        assert(self@.kitty_owners.dom() =~= old(self)@.kitty_owners.dom());
        self.deposit_event(KittyEvent::Transferred(sender, to, kitty_id));
        assert(self@.owned_kitties == old(self)@.owned_kitties
            && self@.owned_kitties_number == old(self)@.owned_kitties_number
            && self@.kitties == old(self)@.kitties && self@.kitties_count == old(self)@.kitties_count);
        Ok(())
    }

    /// Makes a kitty for the signer of `origin`, with DNA hashed from the
    /// randomness `seed`, the signer and the extrinsic index, and asks `reserve`
    /// (the runtime's currency) to reserve its deposit from the signer.
    pub fn create<F: FnOnce(AccountId, Balance) -> bool>(
        &mut self,
        origin: Origin,
        seed: [u8; 32],
        extrinsic_index: Option<u32>,
        reserve: F,
    ) -> (r: Result<(), KittyError>)
        requires
            old(self)@.wf(),
            origin matches Origin::Signed(sender) ==> call_requires(reserve, (sender, old(self)@.new_kitty_reserve)),
        ensures
            match origin {
                Origin::Signed(sender) => if old(self)@.kitties_count == KittyIndex::MAX {
                    r == Err::<(), KittyError>(KittyError::KittiesCountOverflow) && final(self)@ == old(self)@
                } else {
                    let id = old(self)@.kitties_count;
                    let dna = spec_random_value(seed@, sender, extrinsic_index);
                    exists|granted: bool| {
                        &&& #[trigger] call_ensures(reserve, (sender, old(self)@.new_kitty_reserve), granted)
                        &&& granted ==> r == Ok::<(), KittyError>(()) && final(self)@ == old(self)@.with_kitty(
                            sender,
                            id,
                            dna,
                        ).with_event(KittyEvent::Created(sender, id))
                        &&& !granted ==> r == Err::<(), KittyError>(KittyError::NotEnoughMoney) && final(self)@ == old(self)@
                    }
                },
                _ => r == Err::<(), KittyError>(KittyError::BadOrigin) && final(self)@ == old(self)@,
            },
            final(self)@.wf(),
    {
        let sender = match ensure_signed(origin) {
            Ok(s) => s,
            Err(_) => return Err(KittyError::BadOrigin),
        };
        let kitty_id = self.next_kitty_id()?;
        let dna = random_value(seed, sender, extrinsic_index);
        let kitty = Kitty(dna);
        let reserved = reserve(sender, self.new_kitty_reserve);
        proof {
            lemma_owned_number_below_max(self@, sender);
        }
        self.settle_reserve(sender, kitty_id, kitty, reserved)?;
        self.deposit_event(KittyEvent::Created(sender, kitty_id));
        Ok(())
    }

    /// Breeds a kitty of `kitty_id_1` and `kitty_id_2` for `sender`, who must own
    /// both, with a selector hashed from the randomness `seed`, the sender and the
    /// extrinsic index; records its lineage, then asks `reserve` (the runtime's
    /// currency) to reserve its deposit from `sender`. Where the deposit cannot be
    /// reserved, the lineage stays recorded.
    pub fn do_breed<F: FnOnce(AccountId, Balance) -> bool>(
        &mut self,
        sender: AccountId,
        kitty_id_1: KittyIndex,
        kitty_id_2: KittyIndex,
        seed: [u8; 32],
        extrinsic_index: Option<u32>,
        reserve: F,
    ) -> (r: Result<KittyIndex, KittyError>)
        requires
            old(self)@.wf(),
            call_requires(reserve, (sender, old(self)@.new_kitty_reserve)),
        ensures
            breed_result(
                old(self)@,
                final(self)@,
                r,
                sender,
                kitty_id_1,
                kitty_id_2,
                seed@,
                extrinsic_index,
                reserve,
            ),
            final(self)@.wf(),
    {
        if kitty_id_1 == kitty_id_2 {
            return Err(KittyError::RequireDifferentParent);
        }
        let owner1 = match self.kitty_owner(kitty_id_1) {
            Some(o) => o,
            None => return Err(KittyError::KittyNotExists),
        };
        let owner2 = match self.kitty_owner(kitty_id_2) {
            Some(o) => o,
            None => return Err(KittyError::KittyNotExists),
        };
        if owner1 != sender {
            return Err(KittyError::NotKittyOwner);
        }
        if owner2 != sender {
            return Err(KittyError::NotKittyOwner);
        }
        let kitty1 = match self.kitties(kitty_id_1) {
            Some(k) => k,
            None => return Err(KittyError::InvalidKittyId),
        };
        let kitty2 = match self.kitties(kitty_id_2) {
            Some(k) => k,
            None => return Err(KittyError::InvalidKittyId),
        };
        let kitty_id = self.next_kitty_id()?;
        let selector = random_value(seed, sender, extrinsic_index);
        let child = self.record_lineage(kitty_id, kitty_id_1, kitty_id_2, &kitty1, &kitty2, &selector);
        let reserved = reserve(sender, self.new_kitty_reserve);
        proof {
            lemma_owned_number_below_max(self@, sender);
        }
        self.settle_reserve(sender, kitty_id, child, reserved)?;
        Ok(kitty_id)
    }

    /// Breeds a kitty of `kitty_id_1` and `kitty_id_2` for the signer of `origin`
    /// (see `do_breed`) and reports it.
    pub fn breed<F: FnOnce(AccountId, Balance) -> bool>(
        &mut self,
        origin: Origin,
        kitty_id_1: KittyIndex,
        kitty_id_2: KittyIndex,
        seed: [u8; 32],
        extrinsic_index: Option<u32>,
        reserve: F,
    ) -> (r: Result<(), KittyError>)
        requires
            old(self)@.wf(),
            origin matches Origin::Signed(sender) ==> call_requires(reserve, (sender, old(self)@.new_kitty_reserve)),
        ensures
            match origin {
                Origin::Signed(sender) => exists|inner: Result<KittyIndex, KittyError>, mid: KittiesModel| {
                    &&& breed_result(
                        old(self)@,
                        mid,
                        inner,
                        sender,
                        kitty_id_1,
                        kitty_id_2,
                        seed@,
                        extrinsic_index,
                        reserve,
                    )
                    &&& match inner {
                        Ok(id) => r == Ok::<(), KittyError>(()) && final(self)@ == mid.with_event(KittyEvent::Created(sender, id)),
                        Err(e) => r == Err::<(), KittyError>(e) && final(self)@ == mid,
                    }
                },
                _ => r == Err::<(), KittyError>(KittyError::BadOrigin) && final(self)@ == old(self)@,
            },
            final(self)@.wf(),
    {
        let sender = match ensure_signed(origin) {
            Ok(s) => s,
            Err(_) => return Err(KittyError::BadOrigin),
        };
        let new_kitty_id = match self.do_breed(sender, kitty_id_1, kitty_id_2, seed, extrinsic_index, reserve) {
            Ok(id) => id,
            Err(e) => return Err(e),
        };
        self.deposit_event(KittyEvent::Created(sender, new_kitty_id));
        Ok(())
    }
}


/// A selector of all ones takes every bit from the first parent, one of all
/// zeros every bit from the second, and parents of equal DNA pass it on whole.
pub proof fn lemma_combine_dna_selects(dna1: u8, dna2: u8, selector: u8)
    ensures
        spec_combine_dna(dna1, dna2, 0xff) == dna1,
        spec_combine_dna(dna1, dna2, 0) == dna2,
        spec_combine_dna(dna1, dna1, selector) == dna1,
{
    assert((0xffu8 & dna1) | (!0xffu8 & dna2) == dna1) by (bit_vector);
    assert((0u8 & dna1) | (!0u8 & dna2) == dna2) by (bit_vector);
    assert((selector & dna1) | (!selector & dna1) == dna1) by (bit_vector);
}

/// `without(s, x)` holds no `x`.
pub proof fn lemma_without(s: Seq<KittyIndex>, x: KittyIndex)
    ensures
        !without(s, x).contains(x),
    decreases s.len(),
{
    if s.len() > 0 {
        lemma_without(s.drop_last(), x);
        let r = without(s.drop_last(), x);
        if s.last() != x {
            assert forall|i: int| 0 <= i < r.push(s.last()).len() implies r.push(s.last())[i] != x by {
                if i < r.len() {
                    assert(r.push(s.last())[i] == r[i]);
                }
            }
        }
    }
}

/// The siblings recorded for a bred kitty are the earlier children of the
/// same two parents, and never the kitty itself.
pub proof fn lemma_brothers_of_bred_kitty(m: KittiesModel, id: KittyIndex, k1: KittyIndex, k2: KittyIndex)
    ensures
        m.with_lineage(id, k1, k2).kitty_brother[id] == without(seq_at(m.kitty_children, (k1, k2)), id),
        !m.with_lineage(id, k1, k2).kitty_brother[id].contains(id),
        m.with_lineage(id, k1, k2).kitty_parents[id] == (k1, k2),
        m.with_lineage(id, k1, k2).kitty_children[(k1, k2)] == seq_at(m.kitty_children, (k1, k2)).push(id),
{
    let old_children = seq_at(m.kitty_children, (k1, k2));
    assert(old_children.push(id).drop_last() =~= old_children);
    lemma_without(old_children, id);
}

/// A new kitty takes the next index, is owned by its maker and ends the list
/// of the kitties its maker made.
pub proof fn lemma_new_kitty_is_owned(m: KittiesModel, owner: AccountId, dna: Seq<u8>)
    requires
        m.wf(),
        m.kitties_count < KittyIndex::MAX,
        dna.len() == 16,
    ensures
        m.with_kitty(owner, m.kitties_count, dna).wf(),
        m.with_kitty(owner, m.kitties_count, dna).kitties_count == m.kitties_count + 1,
        m.with_kitty(owner, m.kitties_count, dna).kitty_owners[m.kitties_count] == owner,
        m.with_kitty(owner, m.kitties_count, dna).kitties[m.kitties_count] == dna,
        m.with_kitty(owner, m.kitties_count, dna).owned_of(owner).last() == m.kitties_count,
        m.with_kitty(owner, m.kitties_count, dna).owned_number_of(owner) == m.owned_number_of(owner) + 1,
        m.with_kitty(owner, m.kitties_count, dna).owned_number_of(owner) == m.with_kitty(owner, m.kitties_count, dna).owned_of(owner).len(),
        !m.kitties.contains_key(m.kitties_count),
{
}


/// In a valid registry that still has a free index, no account's count of
/// kitties is at the maximum.
pub proof fn lemma_owned_number_below_max(m: KittiesModel, who: AccountId)
    requires
        m.wf(),
        m.kitties_count < KittyIndex::MAX,
    ensures
        m.owned_number_of(who) < KittyIndex::MAX,
{
    if m.owned_kitties_number.contains_key(who) {
        assert(m.owned_kitties_number[who] <= m.kitties_count);
    }
}


/// `without(s, x)` keeps, in order, exactly the elements of `s` other than `x`.
pub proof fn lemma_without_is_filter(s: Seq<KittyIndex>, x: KittyIndex)
    ensures
        without(s, x) == s.filter(|c: KittyIndex| c != x),
    decreases s.len(),
{
    reveal_with_fuel(Seq::filter, 1);
    if s.len() > 0 {
        lemma_without_is_filter(s.drop_last(), x);
    }
}

/// Breeding kitty `id` of `k1` and `k2` records, and changes only: `(k1, k2)` as
/// the parents of `id`; `k2` appended to the partners of `k1` (no other kitty's
/// partners change, `k2`'s included); `id` appended to the children of the pair;
/// and as the siblings of `id` every other child of the pair, in order.
pub proof fn lemma_breeding_records_lineage(m: KittiesModel, id: KittyIndex, k1: KittyIndex, k2: KittyIndex)
    ensures
        ({
            let after = m.with_lineage(id, k1, k2);
            let old_partners = if m.kitty_object.contains_key(k1) { m.kitty_object[k1] } else { Seq::empty() };
            let old_children = if m.kitty_children.contains_key((k1, k2)) {
                m.kitty_children[(k1, k2)]
            } else {
                Seq::empty()
            };
            let children = after.kitty_children[(k1, k2)];
            let siblings = after.kitty_brother[id];
            &&& after.kitty_parents.contains_key(id) && after.kitty_parents[id] == (k1, k2)
            &&& after.kitty_parents.remove(id) == m.kitty_parents.remove(id)
            &&& after.kitty_object.contains_key(k1) && after.kitty_object[k1] == old_partners.push(k2)
            &&& after.kitty_object.remove(k1) == m.kitty_object.remove(k1)
            &&& after.kitty_children.contains_key((k1, k2)) && children == old_children.push(id)
            &&& after.kitty_children.remove((k1, k2)) == m.kitty_children.remove((k1, k2))
            &&& after.kitty_brother.contains_key(id) && siblings == children.filter(|c: KittyIndex| c != id)
            &&& forall|c: KittyIndex| siblings.contains(c) <==> children.contains(c) && c != id
            &&& after.kitty_brother.remove(id) == m.kitty_brother.remove(id)
            &&& after.kitties == m.kitties && after.kitties_count == m.kitties_count
            &&& after.kitty_owners == m.kitty_owners && after.owned_kitties == m.owned_kitties
            &&& after.owned_kitties_number == m.owned_kitties_number && after.events == m.events
            &&& after.new_kitty_reserve == m.new_kitty_reserve
        }),
{
    broadcast use vstd::seq_lib::group_filter_ensures;
    let after = m.with_lineage(id, k1, k2);
    let old_children = seq_at(m.kitty_children, (k1, k2));
    let children = old_children.push(id);
    assert(after.kitty_parents.remove(id) =~= m.kitty_parents.remove(id));
    assert(after.kitty_object.remove(k1) =~= m.kitty_object.remove(k1));
    assert(after.kitty_children.remove((k1, k2)) =~= m.kitty_children.remove((k1, k2)));
    assert(after.kitty_brother.remove(id) =~= m.kitty_brother.remove(id));
    assert(children.drop_last() =~= old_children);
    lemma_without_is_filter(children, id);
    let siblings = children.filter(|c: KittyIndex| c != id);
    assert forall|c: KittyIndex| siblings.contains(c) <==> children.contains(c) && c != id by {
        if siblings.contains(c) {
            children.lemma_filter_contains_rev(|c: KittyIndex| c != id, c);
            let i = choose|i: int| 0 <= i < siblings.len() && siblings[i] == c;
            children.lemma_filter_pred(|c: KittyIndex| c != id, i);
        }
        if children.contains(c) && c != id {
            let i = choose|i: int| 0 <= i < children.len() && children[i] == c;
            children.lemma_filter_contains(|c: KittyIndex| c != id, i);
        }
    }
}

/// A transfer is refused exactly as follows, judged by the kitty's current
/// owner: `InvalidKittyId` for a kitty that does not exist, `NotKittyOwner` when
/// its current owner is not the sender, `TransferToSelf` when the sender gives it
/// to itself; otherwise it goes ahead, and then only the kitty's owner changes.
pub proof fn lemma_transfer_by_current_owner(m: KittiesModel, sender: AccountId, to: AccountId, id: KittyIndex)
    ensures
        !m.kitty_owners.contains_key(id) ==> m.transfer_refusal(sender, to, id) == Some(KittyError::InvalidKittyId),
        m.kitty_owners.contains_key(id) && m.kitty_owners[id] != sender ==> m.transfer_refusal(sender, to, id) == Some(
            KittyError::NotKittyOwner,
        ),
        m.kitty_owners.contains_key(id) && m.kitty_owners[id] == sender && to == sender ==> m.transfer_refusal(sender, to, id)
            == Some(KittyError::TransferToSelf),
        m.kitty_owners.contains_key(id) && m.kitty_owners[id] == sender && to != sender ==> m.transfer_refusal(sender, to, id)
            is None,
        m.with_owner(id, to).kitty_owners == m.kitty_owners.insert(id, to),
        m.with_owner(id, to).kitties == m.kitties && m.with_owner(id, to).owned_kitties == m.owned_kitties
            && m.with_owner(id, to).kitties_count == m.kitties_count && m.with_owner(id, to).events == m.events,
{
}

/// Breeding is refused exactly as follows, judged by the parents' current
/// owners: `RequireDifferentParent` for one kitty twice, `KittyNotExists` when a
/// parent has no owner, `NotKittyOwner` when a parent's current owner is not the
/// sender, `InvalidKittyId` when a parent has no DNA, `KittiesCountOverflow` when
/// every index is taken; otherwise it goes ahead.
pub proof fn lemma_breeding_by_current_owner(m: KittiesModel, sender: AccountId, k1: KittyIndex, k2: KittyIndex)
    ensures
        k1 == k2 ==> m.breed_refusal(sender, k1, k2) == Some(KittyError::RequireDifferentParent),
        k1 != k2 && (!m.kitty_owners.contains_key(k1) || !m.kitty_owners.contains_key(k2)) ==> m.breed_refusal(sender, k1, k2)
            == Some(KittyError::KittyNotExists),
        k1 != k2 && m.kitty_owners.contains_key(k1) && m.kitty_owners.contains_key(k2) && (m.kitty_owners[k1] != sender
            || m.kitty_owners[k2] != sender) ==> m.breed_refusal(sender, k1, k2) == Some(KittyError::NotKittyOwner),
        k1 != k2 && m.kitty_owners.contains_key(k1) && m.kitty_owners.contains_key(k2) && m.kitty_owners[k1] == sender
            && m.kitty_owners[k2] == sender && (!m.kitties.contains_key(k1) || !m.kitties.contains_key(k2))
            ==> m.breed_refusal(sender, k1, k2) == Some(KittyError::InvalidKittyId),
        k1 != k2 && m.kitty_owners.contains_key(k1) && m.kitty_owners.contains_key(k2) && m.kitty_owners[k1] == sender
            && m.kitty_owners[k2] == sender && m.kitties.contains_key(k1) && m.kitties.contains_key(k2)
            && m.kitties_count == KittyIndex::MAX ==> m.breed_refusal(sender, k1, k2) == Some(KittyError::KittiesCountOverflow),
        k1 != k2 && m.kitty_owners.contains_key(k1) && m.kitty_owners.contains_key(k2) && m.kitty_owners[k1] == sender
            && m.kitty_owners[k2] == sender && m.kitties.contains_key(k1) && m.kitties.contains_key(k2)
            && m.kitties_count < KittyIndex::MAX ==> m.breed_refusal(sender, k1, k2) is None,
{
}

/// A new kitty `id` of `owner` records exactly: its DNA, its owner, the count
/// one past it, the maker's count of kitties one higher, and `id` appended to
/// the maker's list; nothing else changes.
pub proof fn lemma_new_kitty_record(m: KittiesModel, owner: AccountId, id: KittyIndex, dna: Seq<u8>)
    requires
        id < KittyIndex::MAX,
    ensures
        ({
            let after = m.with_kitty(owner, id, dna);
            let old_number: int = if m.owned_kitties_number.contains_key(owner) { m.owned_kitties_number[owner] as int } else { 0 };
            let old_list = if m.owned_kitties.contains_key(owner) { m.owned_kitties[owner] } else { Seq::empty() };
            &&& after.kitties == m.kitties.insert(id, dna)
            &&& after.kitties_count == id + 1
            &&& after.kitty_owners == m.kitty_owners.insert(id, owner)
            &&& old_number < KittyIndex::MAX ==> after.owned_kitties_number == m.owned_kitties_number.insert(owner, (old_number + 1) as KittyIndex)
            &&& after.owned_kitties == m.owned_kitties.insert(owner, old_list.push(id))
            &&& after.kitty_parents == m.kitty_parents && after.kitty_object == m.kitty_object
            &&& after.kitty_children == m.kitty_children && after.kitty_brother == m.kitty_brother
            &&& after.events == m.events && after.new_kitty_reserve == m.new_kitty_reserve
        }),
{
}

} // verus!
