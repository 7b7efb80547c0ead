use crate::dna::{dna_of, random_dna};
use crate::kitty::{mix_dna, mix_of, Kitty};
use vstd::prelude::*;

verus! {

/// An account, as an opaque comparable identifier.
pub type AccountId = u64;

/// Identifier of a kitty, unique over the registry's lifetime.
pub type KittyId = u8;

/// Why a request was turned down. A refused request changes nothing.
#[derive(Clone, Copy, Debug, PartialEq, Eq, Structural)]
pub enum Error {
    /// The identifier counter is at its largest value and cannot advance.
    IdentifierOverflow,
    /// A parent named for breeding is not in the registry.
    ParentNotFound,
    /// Both parents have the same gender.
    SameGenderParents,
    /// The caller does not own both parents.
    DifferentOwner,
}

/// The kitties that exist, keyed by owner and identifier, with the counter
/// that hands out identifiers.
pub struct KittyRegistry {
    /// The kitty with identifier `i` stands at position `i`, with its owner.
    kitties: Vec<(AccountId, Kitty)>,
    /// The identifier the next kitty will get.
    next_kitty_id: KittyId,
}

impl KittyRegistry {
    /// The registry as a map from (owner, identifier) to genome.
    pub closed spec fn view(&self) -> Map<(AccountId, KittyId), Kitty> {
        Map::new(
            |k: (AccountId, KittyId)|
                (k.1 as int) < self.kitties@.len() && self.kitties@[k.1 as int].0 == k.0,
            |k: (AccountId, KittyId)| self.kitties@[k.1 as int].1,
        )
    }

    /// The counter: the identifier the next kitty will get.
    pub closed spec fn next_id(&self) -> KittyId {
        self.next_kitty_id
    }

    /// Every identifier below the counter is held by exactly one kitty, and
    /// none at or above it.
    pub closed spec fn wf(&self) -> bool {
        self.kitties@.len() == self.next_kitty_id as int
    }

    /// `self` is `before` with one more kitty, `kitty` owned by `owner`,
    /// under the identifier that the counter held, and the counter advanced.
    pub open spec fn minted_from(
        &self,
        before: &Self,
        owner: AccountId,
        id: KittyId,
        kitty: Kitty,
    ) -> bool {
        &&& id == before.next_id()
        &&& self.next_id() == id + 1
        &&& !before@.contains_key((owner, id))
        &&& forall|k: (AccountId, KittyId)| before@.contains_key(k) ==> k.1 < id
        &&& self@ == before@.insert((owner, id), kitty)
    }

    /// `self` and `before` hold the same kitties and the same counter.
    pub open spec fn same_as(&self, before: &Self) -> bool {
        &&& self@ == before@
        &&& self.next_id() == before.next_id()
    }

    /// The refusal owed to a breeding request, checked in order: both parents
    /// exist, their genders differ, the caller owns both, an identifier is left.
    pub open spec fn breed_refusal(
        &self,
        sender: AccountId,
        parent1: (AccountId, KittyId),
        parent2: (AccountId, KittyId),
    ) -> Option<Error> {
        if !self@.contains_key(parent1) || !self@.contains_key(parent2) {
            Some(Error::ParentNotFound)
        } else if self@[parent1].spec_gender() == self@[parent2].spec_gender() {
            Some(Error::SameGenderParents)
        } else if parent1.0 != sender || parent2.0 != sender {
            Some(Error::DifferentOwner)
        } else if self.next_id() == KittyId::MAX {
            Some(Error::IdentifierOverflow)
        } else {
            None
        }
    }

    /// An empty registry whose counter starts at zero.
    pub fn new() -> (r: Self)
        ensures
            r.wf(),
            r@ == Map::<(AccountId, KittyId), Kitty>::empty(),
            r.next_id() == 0,
    {
        let r = KittyRegistry { kitties: Vec::new(), next_kitty_id: 0 };
        assert(r@ =~= Map::<(AccountId, KittyId), Kitty>::empty());
        r
    }

    /// The identifier the next kitty will get.
    pub fn next_kitty_id(&self) -> (r: KittyId)
        ensures
            r == self.next_id(),
    {
        self.next_kitty_id
    }

    /// The genome of the kitty that `owner` holds under `id`, if there is one.
    pub fn kitties(&self, owner: AccountId, id: KittyId) -> (r: Option<Kitty>)
        requires
            self.wf(),
        ensures
            r == (if self@.contains_key((owner, id)) {
                Some(self@[(owner, id)])
            } else {
                None
            }),
    {
        let i = id as usize;
        if i < self.kitties.len() && self.kitties[i].0 == owner {
            Some(self.kitties[i].1)
        } else {
            None
        }
    }

    /// The kitties in identifier order, each with its owner: position `i`
    /// holds the kitty with identifier `i`.
    pub fn to_entries(&self) -> (r: Vec<(AccountId, Kitty)>)
        requires
            self.wf(),
        ensures
            r@.len() == self.next_id() as int,
            forall|i: int|
                0 <= i < r@.len() ==> #[trigger] self@.contains_key((r@[i].0, i as KittyId))
                    && self@[(r@[i].0, i as KittyId)] == r@[i].1,
    {
        let mut r: Vec<(AccountId, Kitty)> = Vec::new();
        let mut i: usize = 0;
        while i < self.kitties.len()
            invariant
                i <= self.kitties@.len(),
                r@ == self.kitties@.subrange(0, i as int),
            decreases self.kitties@.len() - i,
        {
            r.push(self.kitties[i]);
            i = i + 1;
            assert(r@ =~= self.kitties@.subrange(0, i as int));
        }
        assert(r@ =~= self.kitties@);
        r
    }

    /// A registry holding `entries[i]` as the kitty with identifier `i`, its
    /// counter just past the last one; `None` when there are more entries than
    /// identifiers below the counter's largest value.
    pub fn from_entries(entries: Vec<(AccountId, Kitty)>) -> (r: Option<Self>)
        ensures
            entries@.len() > KittyId::MAX as int <==> r is None,
            r matches Some(reg) ==> {
                &&& reg.wf()
                &&& reg.next_id() as int == entries@.len()
                &&& forall|k: (AccountId, KittyId)|
                    #[trigger] reg@.contains_key(k) <==> (k.1 as int) < entries@.len()
                        && entries@[k.1 as int].0 == k.0
                &&& forall|k: (AccountId, KittyId)|
                    #[trigger] reg@.contains_key(k) ==> reg@[k] == entries@[k.1 as int].1
            },
    {
        if entries.len() > KittyId::MAX as usize {
            return None;
        }
        let n = entries.len() as KittyId;
        Some(KittyRegistry { kitties: entries, next_kitty_id: n })
    }

    /// Stores `kitty` for `owner` under a fresh identifier: the counter's
    /// value, which then advances. Fails, changing nothing, when the counter
    /// cannot advance.
    pub fn mint(&mut self, owner: AccountId, kitty: Kitty) -> (r: Result<(KittyId, Kitty), Error>)
        requires
            old(self).wf(),
        ensures
            final(self).wf(),
            old(self).next_id() == KittyId::MAX ==> r == Err::<(KittyId, Kitty), Error>(
                Error::IdentifierOverflow,
            ) && final(self).same_as(old(self)),
            old(self).next_id() < KittyId::MAX ==> r == Ok::<(KittyId, Kitty), Error>(
                (old(self).next_id(), kitty),
            ) && final(self).minted_from(old(self), owner, old(self).next_id(), kitty),
    {
        let id = self.next_kitty_id;
        if id == KittyId::MAX {
            return Err(Error::IdentifierOverflow);
        }
        self.kitties.push((owner, kitty));
        self.next_kitty_id = id + 1;
        assert(self@ =~= old(self)@.insert((owner, id), kitty));
        Ok((id, kitty))
    }

    /// Creates a kitty for `sender` whose genome is drawn from the block's
    /// random seed, the sender and the request's index in the block.
    pub fn create(
        &mut self,
        sender: AccountId,
        random_seed: &[u8; 32],
        extrinsic_index: Option<u32>,
    ) -> (r: Result<(KittyId, Kitty), Error>)
        requires
            old(self).wf(),
        ensures
            final(self).wf(),
            old(self).next_id() == KittyId::MAX ==> r == Err::<(KittyId, Kitty), Error>(
                Error::IdentifierOverflow,
            ) && final(self).same_as(old(self)),
            old(self).next_id() < KittyId::MAX ==> {
                &&& r matches Ok((id, kitty))
                &&& id == old(self).next_id()
                &&& kitty.dna() == dna_of(random_seed@, sender, extrinsic_index)
                &&& final(self).minted_from(old(self), sender, id, kitty)
            },
    {
        let dna = random_dna(random_seed, sender, extrinsic_index);
        self.mint(sender, Kitty(dna))
    }

    /// Breeds the kitties `parent1` and `parent2`, given as (owner,
    /// identifier), into a kitten for `sender`: each byte of its genome comes
    /// from `parent2` where the matching selector byte is even, from `parent1`
    /// where it is odd.
    pub fn breed_with_selector(
        &mut self,
        sender: AccountId,
        parent1: (AccountId, KittyId),
        parent2: (AccountId, KittyId),
        selector: &[u8; 16],
    ) -> (r: Result<(KittyId, Kitty), Error>)
        requires
            old(self).wf(),
        ensures
            final(self).wf(),
            old(self).breed_refusal(sender, parent1, parent2) matches Some(e) ==> r == Err::<
                (KittyId, Kitty),
                Error,
            >(e) && final(self).same_as(old(self)),
            old(self).breed_refusal(sender, parent1, parent2) is None ==> {
                &&& r matches Ok((id, child))
                &&& id == old(self).next_id()
                &&& child.dna() == mix_of(old(self)@[parent1].dna(), old(self)@[parent2].dna(), selector@)
                &&& final(self).minted_from(old(self), sender, id, child)
            },
    {
        let k1 = match self.kitties(parent1.0, parent1.1) {
            Some(k) => k,
            None => return Err(Error::ParentNotFound),
        };
        let k2 = match self.kitties(parent2.0, parent2.1) {
            Some(k) => k,
            None => return Err(Error::ParentNotFound),
        };
        if k1.gender() == k2.gender() {
            return Err(Error::SameGenderParents);
        }
        if parent1.0 != sender || parent2.0 != sender {
            return Err(Error::DifferentOwner);
        }
        let child = Kitty(mix_dna(&k1.0, &k2.0, selector));
        self.mint(sender, child)
    }

    /// Breeds `parent1` and `parent2` into a kitten for `sender`, choosing
    /// each byte of its genome from one parent by fresh randomness drawn as
    /// for `create`.
    pub fn breed(
        &mut self,
        sender: AccountId,
        parent1: (AccountId, KittyId),
        parent2: (AccountId, KittyId),
        random_seed: &[u8; 32],
        extrinsic_index: Option<u32>,
    ) -> (r: Result<(KittyId, Kitty), Error>)
        requires
            old(self).wf(),
        ensures
            final(self).wf(),
            old(self).breed_refusal(sender, parent1, parent2) matches Some(e) ==> r == Err::<
                (KittyId, Kitty),
                Error,
            >(e) && final(self).same_as(old(self)),
            old(self).breed_refusal(sender, parent1, parent2) is None ==> {
                &&& r matches Ok((id, child))
                &&& id == old(self).next_id()
                &&& child.dna() == mix_of(
                    old(self)@[parent1].dna(),
                    old(self)@[parent2].dna(),
                    dna_of(random_seed@, sender, extrinsic_index),
                )
                &&& final(self).minted_from(old(self), sender, id, child)
                &&& forall|i: int|
                    0 <= i < 16 ==> child.dna()[i] == old(self)@[parent1].dna()[i]
                        || child.dna()[i] == old(self)@[parent2].dna()[i]
            },
    {
        let selector = random_dna(random_seed, sender, extrinsic_index);
        self.breed_with_selector(sender, parent1, parent2, &selector)
    }
}

/// An identifier is never shared: two owners holding a kitty under the same
/// identifier are the same owner.
pub proof fn lemma_id_has_one_owner(reg: &KittyRegistry, a: AccountId, b: AccountId, id: KittyId)
    requires
        reg@.contains_key((a, id)),
        reg@.contains_key((b, id)),
    ensures
        a == b,
{
}

/// Every identifier in use lies below the counter, so the counter's value is
/// always fresh.
pub proof fn lemma_ids_below_counter(reg: &KittyRegistry, k: (AccountId, KittyId))
    requires
        reg.wf(),
        reg@.contains_key(k),
    ensures
        k.1 < reg.next_id(),
{
}

} // verus!
