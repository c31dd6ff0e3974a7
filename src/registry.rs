use crate::ledger::Ledger;
use std::collections::HashMap;
use vstd::prelude::*;

verus! {

broadcast use {vstd::std_specs::hash::group_hash_axioms, vstd::array::group_array_axioms};

/// An account identity, as handed over by the caller's runtime.
pub type AccountId = u64;

/// An amount of the ledger's currency.
pub type Balance = u128;

/// The identity of a kitty: sixteen bytes, both key and fingerprint.
pub type Dna = [u8; 16];

#[derive(Clone, Copy, Debug, PartialEq, Eq, Structural)]
pub enum Gender {
    Male,
    Female,
}

/// The record of one kitty.
#[derive(Clone, Copy, Debug, PartialEq, Eq)]
pub struct Kitty {
    pub dna: Dna,
    /// `None` means the kitty is not for sale.
    pub price: Option<Balance>,
    pub gender: Gender,
    pub owner: AccountId,
}

#[allow(inconsistent_fields)]
#[derive(Clone, Copy, Debug, PartialEq, Eq)]
pub enum Event {
    Created { kitty: Dna, owner: AccountId },
    Transferred { from: AccountId, to: AccountId, kitty: Dna },
    PriceSet { kitty: Dna, price: Option<Balance> },
    Sold { seller: AccountId, buyer: AccountId, kitty: Dna, price: Balance },
}

#[derive(Clone, Copy, Debug, PartialEq, Eq, Structural)]
pub enum Error {
    /// An account already holds as many kitties as it may.
    TooManyOwned,
    /// The identity of a new kitty is already taken.
    DuplicateKitty,
    /// The counter of minted kitties is at its ceiling.
    Overflow,
    /// No kitty has this identity.
    NoKitty,
    /// The caller does not own the kitty.
    NotOwner,
    /// Sender and recipient (or seller and buyer) are the same account.
    TransferToSelf,
    /// The bid is under the asking price.
    BidPriceTooLow,
    /// The kitty has no price.
    NotForSale,
    /// The ledger refused the payment.
    PaymentFailed,
}

/// The record that `mint` creates.
pub open spec fn new_kitty(dna: Dna, gender: Gender, owner: AccountId) -> Kitty {
    Kitty { dna, price: None, gender, owner }
}

/// The record after a change of hands: new owner, no price.
pub open spec fn handed_over(k: Kitty, to: AccountId) -> Kitty {
    Kitty { owner: to, price: None, ..k }
}

/// `s` with its element at `i` replaced by the last one, and shortened by one.
pub open spec fn swap_removed(s: Seq<Dna>, i: int) -> Seq<Dna> {
    s.update(i, s.last()).drop_last()
}

/// The asset store: kitty records, the per-account lists of held kitties, and
/// the count of kitties ever minted.
pub struct Pallet {
    kitties: Vec<Kitty>,
    kitties_owned: HashMap<AccountId, Vec<Dna>>,
    count_for_kitties: u64,
    max_kitties_owned: usize,
    events: Vec<Event>,
    records: Ghost<Map<Dna, Kitty>>,
    index: Ghost<Map<Dna, nat>>,
}

impl Pallet {
    /// The kitty records, by identity.
    pub closed spec fn kitty_map(&self) -> Map<Dna, Kitty> {
        self.records@
    }

    /// The identities that account `a` holds, in order.
    pub closed spec fn owned_of(&self, a: AccountId) -> Seq<Dna> {
        if self.kitties_owned@.contains_key(a) {
            self.kitties_owned@[a]@
        } else {
            Seq::empty()
        }
    }

    /// How many kitties were ever minted.
    pub closed spec fn kitty_count(&self) -> u64 {
        self.count_for_kitties
    }

    /// How many kitties one account may hold.
    pub closed spec fn capacity(&self) -> nat {
        self.max_kitties_owned as nat
    }

    /// The events deposited so far, oldest first.
    pub closed spec fn event_log(&self) -> Seq<Event> {
        self.events@
    }

    /// The store's invariant: records and their index agree, each listed
    /// identity has a record whose owner is the listing account, each record
    /// is listed under its owner, and no list repeats an identity or exceeds
    /// the capacity.
    pub closed spec fn wf(&self) -> bool {
        &&& forall|i: int|
            0 <= i < self.kitties.len() ==> {
                &&& #[trigger] self.index@.contains_key(self.kitties@[i].dna)
                &&& self.index@[self.kitties@[i].dna] == i
                &&& self.records@.contains_key(self.kitties@[i].dna)
                &&& self.records@[self.kitties@[i].dna] == self.kitties@[i]
            }
        &&& forall|d: Dna|
            #[trigger] self.records@.contains_key(d) ==> {
                &&& self.index@.contains_key(d)
                &&& self.index@[d] < self.kitties.len()
                &&& self.kitties@[self.index@[d] as int].dna == d
                &&& self.owned_of(self.records@[d].owner).contains(d)
            }
        &&& forall|a: AccountId, k: int|
            0 <= k < self.owned_of(a).len() ==> {
                &&& self.records@.contains_key(#[trigger] self.owned_of(a)[k])
                &&& self.records@[self.owned_of(a)[k]].owner == a
            }
        &&& forall|a: AccountId|
            {
                &&& (#[trigger] self.owned_of(a)).no_duplicates()
                &&& self.owned_of(a).len() <= self.max_kitties_owned
            }
    }

    /// An empty store whose accounts may each hold `max_kitties_owned` kitties.
    pub fn new(max_kitties_owned: u32) -> (r: Self)
        ensures
            r.wf(),
            r.kitty_map() == Map::<Dna, Kitty>::empty(),
            forall|a: AccountId| r.owned_of(a) == Seq::<Dna>::empty(),
            r.kitty_count() == 0,
            r.capacity() == max_kitties_owned as nat,
            r.event_log() == Seq::<Event>::empty(),
    {
        Pallet {
            kitties: Vec::new(),
            kitties_owned: HashMap::new(),
            count_for_kitties: 0,
            max_kitties_owned: max_kitties_owned as usize,
            events: Vec::new(),
            records: Ghost(Map::empty()),
            index: Ghost(Map::empty()),
        }
    }

    /// The record of kitty `dna`, if there is one.
    pub fn kitty(&self, dna: &Dna) -> (r: Option<Kitty>)
        requires
            self.wf(),
        ensures
            r == (if self.kitty_map().contains_key(*dna) {
                Some(self.kitty_map()[*dna])
            } else {
                None::<Kitty>
            }),
    {
        match self.find(dna) {
            Some(i) => Some(self.kitties[i]),
            None => None,
        }
    }

    /// Whether kitty `dna` exists.
    pub fn contains_kitty(&self, dna: &Dna) -> (r: bool)
        requires
            self.wf(),
        ensures
            r == self.kitty_map().contains_key(*dna),
    {
        self.find(dna).is_some()
    }

    /// The identities that account `a` holds, in order.
    pub fn kitties_owned(&self, a: AccountId) -> (r: Vec<Dna>)
        ensures
            r@ == self.owned_of(a),
    {
        let mut out: Vec<Dna> = Vec::new();
        match self.kitties_owned.get(&a) {
            Some(list) => {
                let mut i: usize = 0;
                while i < list.len()
                    invariant
                        i <= list.len(),
                        out@ =~= list@.subrange(0, i as int),
                    decreases list.len() - i,
                {
                    out.push(list[i]);
                    i += 1;
                }
                assert(out@ =~= list@);
            },
            None => {},
        }
        out
    }

    /// How many kitties were ever minted.
    pub fn count_for_kitties(&self) -> (r: u64)
        ensures
            r == self.kitty_count(),
    {
        self.count_for_kitties
    }

    /// How many kitties one account may hold.
    pub fn max_kitties_owned(&self) -> (r: usize)
        ensures
            r == self.capacity(),
    {
        self.max_kitties_owned
    }

    /// The events deposited so far, oldest first.
    pub fn events(&self) -> (r: &Vec<Event>)
        ensures
            r@ == self.event_log(),
    {
        &self.events
    }

    /// Where the record of `dna` stands, if there is one.
    fn find(&self, dna: &Dna) -> (r: Option<usize>)
        requires
            self.wf(),
        ensures
            match r {
                Some(i) => {
                    &&& i < self.kitties.len()
                    &&& self.kitty_map().contains_key(*dna)
                    &&& self.kitties@[i as int] == self.kitty_map()[*dna]
                    &&& self.kitty_map()[*dna].dna == *dna
                },
                None => !self.kitty_map().contains_key(*dna),
            },
    {
        let mut i: usize = 0;
        while i < self.kitties.len()
            invariant
                self.wf(),
                i <= self.kitties.len(),
                forall|k: int| 0 <= k < i ==> self.kitties@[k].dna != *dna,
            decreases self.kitties.len() - i,
        {
            if dna_eq(&self.kitties[i].dna, dna) {
                assert(self.index@.contains_key(self.kitties@[i as int].dna));
                return Some(i);
            }
            i += 1;
        }
        proof {
            if self.records@.contains_key(*dna) {
                let k = self.index@[*dna] as int;
                assert(self.kitties@[k].dna == *dna);
            }
        }
        None
    }

    /// How many kitties account `a` holds.
    fn owned_len(&self, a: AccountId) -> (r: usize)
        ensures
            r == self.owned_of(a).len(),
    {
        match self.kitties_owned.get(&a) {
            Some(v) => v.len(),
            None => 0,
        }
    }
    /// Takes the list of account `a` out of the index (empty if it had none).
    fn take_owned(&mut self, a: AccountId) -> (r: Vec<Dna>)
        ensures
            r@ == old(self).owned_of(a),
            final(self).kitties_owned@ == old(self).kitties_owned@.remove(a),
            final(self).kitties == old(self).kitties,
            final(self).records == old(self).records,
            final(self).index == old(self).index,
            final(self).count_for_kitties == old(self).count_for_kitties,
            final(self).max_kitties_owned == old(self).max_kitties_owned,
            final(self).events == old(self).events,
    {
        match self.kitties_owned.remove(&a) {
            Some(v) => v,
            None => Vec::new(),
        }
    }

    /// The outcome of minting `dna` with `gender` for `owner` on store `pre`,
    /// as result `r` and store `post`: the checks in order (identity free,
    /// count below its ceiling, room for `owner`), and on success a record
    /// with no price, `dna` appended to `owner`'s list, the count one higher
    /// and a `Created` event; on failure no change.
    pub open spec fn minted(
        pre: Self,
        post: Self,
        owner: AccountId,
        dna: Dna,
        gender: Gender,
        r: Result<Dna, Error>,
    ) -> bool {
        &&& post.capacity() == pre.capacity()
        &&& pre.kitty_map().contains_key(dna) ==> r == Err::<Dna, Error>(Error::DuplicateKitty)
        &&& !pre.kitty_map().contains_key(dna) && pre.kitty_count() == u64::MAX
            ==> r == Err::<Dna, Error>(Error::Overflow)
        &&& !pre.kitty_map().contains_key(dna) && pre.kitty_count() < u64::MAX
            && pre.owned_of(owner).len() >= pre.capacity() ==> r == Err::<Dna, Error>(Error::TooManyOwned)
        &&& r is Err ==> post == pre
        &&& (r is Ok <==> !pre.kitty_map().contains_key(dna) && pre.kitty_count() < u64::MAX
            && pre.owned_of(owner).len() < pre.capacity())
        &&& r is Ok ==> {
            &&& r == Ok::<Dna, Error>(dna)
            &&& post.kitty_map() == pre.kitty_map().insert(dna, new_kitty(dna, gender, owner))
            &&& post.owned_of(owner) == pre.owned_of(owner).push(dna)
            &&& forall|a: AccountId| a != owner ==> post.owned_of(a) == pre.owned_of(a)
            &&& post.kitty_count() == pre.kitty_count() + 1
            &&& post.event_log() == pre.event_log().push(Event::Created { kitty: dna, owner })
        }
    }

    /// Writes a new kitty to the store for `owner`, as `minted` describes.
    pub fn mint(&mut self, owner: AccountId, dna: Dna, gender: Gender) -> (r: Result<Dna, Error>)
        requires
            old(self).wf(),
        ensures
            final(self).wf(),
            Self::minted(*old(self), *final(self), owner, dna, gender, r),
    {
        if self.find(&dna).is_some() {
            return Err(Error::DuplicateKitty);
        }
        if self.count_for_kitties == u64::MAX {
            return Err(Error::Overflow);
        }
        if self.owned_len(owner) >= self.max_kitties_owned {
            return Err(Error::TooManyOwned);
        }
        let ghost pre = *self;
        let kitty = Kitty { dna, price: None, gender, owner };
        let mut list = self.take_owned(owner);
        list.push(dna);
        self.kitties_owned.insert(owner, list);
        let pos = self.kitties.len();
        self.kitties.push(kitty);
        self.records = Ghost(self.records@.insert(dna, kitty));
        self.index = Ghost(self.index@.insert(dna, pos as nat));
        self.count_for_kitties = self.count_for_kitties + 1;
        self.events.push(Event::Created { kitty: dna, owner });
        proof {
            assert(self.owned_of(owner) == pre.owned_of(owner).push(dna));
            assert forall|a: AccountId| a != owner implies self.owned_of(a) == pre.owned_of(a) by {}
            assert forall|d: Dna| #[trigger] self.records@.contains_key(d) implies {
                &&& self.index@.contains_key(d)
                &&& self.index@[d] < self.kitties.len()
                &&& self.kitties@[self.index@[d] as int].dna == d
                &&& self.owned_of(self.records@[d].owner).contains(d)
            } by {
                if d == dna {
                    assert(self.owned_of(owner)[pre.owned_of(owner).len() as int] == dna);
                } else {
                    let o = pre.records@[d].owner;
                    let j = choose|j: int| 0 <= j < pre.owned_of(o).len() && pre.owned_of(o)[j] == d;
                    assert(self.owned_of(o)[j] == d);
                }
            }
            assert forall|a: AccountId, k: int| 0 <= k < self.owned_of(a).len() implies {
                &&& self.records@.contains_key(#[trigger] self.owned_of(a)[k])
                &&& self.records@[self.owned_of(a)[k]].owner == a
            } by {
                if a != owner {
                    assert(self.owned_of(a) == pre.owned_of(a));
                }
                if a == owner && k < pre.owned_of(a).len() {
                    assert(pre.owned_of(a)[k] == self.owned_of(a)[k]);
                    assert(pre.records@.contains_key(pre.owned_of(a)[k]));
                }
            }
            assert forall|a: AccountId| {
                &&& (#[trigger] self.owned_of(a)).no_duplicates()
                &&& self.owned_of(a).len() <= self.max_kitties_owned
            } by {
                if a != owner {
                    assert(self.owned_of(a) == pre.owned_of(a));
                }
                if a == owner {
                    assert forall|k: int| 0 <= k < pre.owned_of(a).len() implies pre.owned_of(a)[k] != dna by {
                        assert(pre.records@.contains_key(pre.owned_of(a)[k]));
                    }
                }
            }
        }
        Ok(dna)
    }
    /// Moves the kitty stored at `i` to `to`: off its owner's list (by swap
    /// removal), onto the end of `to`'s list, with owner `to` and no price.
    fn hand_over(&mut self, i: usize, to: AccountId)
        requires
            old(self).wf(),
            i < old(self).kitties.len(),
            old(self).kitties@[i as int].owner != to,
            old(self).owned_of(to).len() < old(self).capacity(),
        ensures
            final(self).wf(),
            ({
                let k = old(self).kitties@[i as int];
                let from_list = old(self).owned_of(k.owner);
                &&& final(self).kitty_map() == old(self).kitty_map().insert(k.dna, handed_over(k, to))
                &&& final(self).owned_of(k.owner) == swap_removed(from_list, from_list.index_of(k.dna))
                &&& final(self).owned_of(to) == old(self).owned_of(to).push(k.dna)
                &&& forall|a: AccountId|
                    a != k.owner && a != to ==> final(self).owned_of(a) == old(self).owned_of(a)
            }),
            final(self).count_for_kitties == old(self).count_for_kitties,
            final(self).max_kitties_owned == old(self).max_kitties_owned,
            final(self).events == old(self).events,
    {
        let ghost pre = *self;
        let kitty = self.kitties[i];
        let kitty_id = kitty.dna;
        let from = kitty.owner;
        assert(pre.index@.contains_key(pre.kitties@[i as int].dna));
        let ghost s = pre.owned_of(from);
        let mut from_list = self.take_owned(from);
        let pos = position_of(&from_list, &kitty_id);
        from_list.swap_remove(pos);
        self.kitties_owned.insert(from, from_list);
        let mut to_list = self.take_owned(to);
        to_list.push(kitty_id);
        self.kitties_owned.insert(to, to_list);
        let moved = Kitty { owner: to, price: None, ..kitty };
        self.kitties.set(i, moved);
        self.records = Ghost(self.records@.insert(kitty_id, moved));
        proof {
            assert(s.no_duplicates());
            assert(s[s.index_of(kitty_id)] == kitty_id);
            assert(s.index_of(kitty_id) == pos as int);
            lemma_swap_removed(s, pos as int);
            assert(self.owned_of(from) == swap_removed(s, pos as int));
            assert(self.owned_of(to) == pre.owned_of(to).push(kitty_id));
            assert(!pre.owned_of(to).contains(kitty_id)) by {
                if pre.owned_of(to).contains(kitty_id) {
                    let j = choose|j: int| 0 <= j < pre.owned_of(to).len() && pre.owned_of(to)[j] == kitty_id;
                    assert(pre.records@.contains_key(pre.owned_of(to)[j]));
                }
            }
            assert forall|a: AccountId| a != from && a != to implies self.owned_of(a) == pre.owned_of(a) by {}
            assert forall|j: int| 0 <= j < self.kitties.len() implies {
                &&& #[trigger] self.index@.contains_key(self.kitties@[j].dna)
                &&& self.index@[self.kitties@[j].dna] == j
                &&& self.records@.contains_key(self.kitties@[j].dna)
                &&& self.records@[self.kitties@[j].dna] == self.kitties@[j]
            } by {
                assert(pre.index@.contains_key(pre.kitties@[j].dna));
            }
            assert forall|d: Dna| #[trigger] self.records@.contains_key(d) implies {
                &&& self.index@.contains_key(d)
                &&& self.index@[d] < self.kitties.len()
                &&& self.kitties@[self.index@[d] as int].dna == d
                &&& self.owned_of(self.records@[d].owner).contains(d)
            } by {
                if d == kitty_id {
                    assert(self.owned_of(to)[pre.owned_of(to).len() as int] == kitty_id);
                } else {
                    let o = pre.records@[d].owner;
                    assert(pre.owned_of(o).contains(d));
                    if o == from {
                        assert(swap_removed(s, pos as int).contains(d));
                    } else if o == to {
                        let j = choose|j: int| 0 <= j < pre.owned_of(o).len() && pre.owned_of(o)[j] == d;
                        assert(self.owned_of(o)[j] == d);
                    } else {
                        assert(self.owned_of(o) == pre.owned_of(o));
                    }
                }
            }
            assert forall|a: AccountId, k: int| 0 <= k < self.owned_of(a).len() implies {
                &&& self.records@.contains_key(#[trigger] self.owned_of(a)[k])
                &&& self.records@[self.owned_of(a)[k]].owner == a
            } by {
                let x = self.owned_of(a)[k];
                if a == from {
                    assert(swap_removed(s, pos as int).contains(x));
                    let j = choose|j: int| 0 <= j < s.len() && s[j] == x;
                    assert(pre.records@.contains_key(s[j]));
                } else if a == to {
                    if k < pre.owned_of(a).len() {
                        assert(pre.owned_of(a)[k] == x);
                        assert(pre.records@.contains_key(pre.owned_of(a)[k]));
                    }
                } else {
                    assert(self.owned_of(a) == pre.owned_of(a));
                    assert(pre.records@.contains_key(pre.owned_of(a)[k]));
                }
            }
            assert forall|a: AccountId| {
                &&& (#[trigger] self.owned_of(a)).no_duplicates()
                &&& self.owned_of(a).len() <= self.max_kitties_owned
            } by {
                if a != from && a != to {
                    assert(self.owned_of(a) == pre.owned_of(a));
                }
                assert(pre.owned_of(a).no_duplicates());
            }
        }
    }
    /// Gives the kitty `kitty_id` to `to`, whoever holds it. Fails, in this
    /// order, with `NoKitty` if there is no such kitty, `TransferToSelf` if
    /// `to` holds it already, `TooManyOwned` if `to` has no room; then nothing
    /// changes. On success the kitty leaves its owner's list, joins the end of
    /// `to`'s, loses its price, and a `Transferred` event is deposited.
    pub fn do_transfer(&mut self, kitty_id: Dna, to: AccountId) -> (r: Result<(), Error>)
        requires
            old(self).wf(),
        ensures
            final(self).wf(),
            final(self).capacity() == old(self).capacity(),
            final(self).kitty_count() == old(self).kitty_count(),
            !old(self).kitty_map().contains_key(kitty_id) ==> r == Err::<(), Error>(Error::NoKitty),
            old(self).kitty_map().contains_key(kitty_id) && old(self).kitty_map()[kitty_id].owner == to
                ==> r == Err::<(), Error>(Error::TransferToSelf),
            old(self).kitty_map().contains_key(kitty_id) && old(self).kitty_map()[kitty_id].owner != to
                && old(self).owned_of(to).len() >= old(self).capacity()
                ==> r == Err::<(), Error>(Error::TooManyOwned),
            r is Ok <==> old(self).kitty_map().contains_key(kitty_id) && old(self).kitty_map()[kitty_id].owner != to
                && old(self).owned_of(to).len() < old(self).capacity(),
            r is Err ==> *final(self) == *old(self),
            r is Ok ==> {
                let k = old(self).kitty_map()[kitty_id];
                &&& old(self).kitty_map().contains_key(kitty_id)
                &&& Self::handed_to(*old(self), *final(self), kitty_id, to)
                &&& final(self).event_log() == old(self).event_log().push(
                    Event::Transferred { from: k.owner, to, kitty: kitty_id },
                )
            },
    {
        let i = match self.find(&kitty_id) {
            Some(i) => i,
            None => return Err(Error::NoKitty),
        };
        let from = self.kitties[i].owner;
        if from == to {
            return Err(Error::TransferToSelf);
        }
        if self.owned_len(to) >= self.max_kitties_owned {
            return Err(Error::TooManyOwned);
        }
        self.hand_over(i, to);
        self.deposit_event(Event::Transferred { from, to, kitty: kitty_id });
        Ok(())
    }

    /// `post` is `pre` with kitty `kitty_id` handed from its owner to `to`:
    /// new owner, no price, swap-removed from the old owner's list and
    /// appended to `to`'s; every other record and list is as it was.
    pub open spec fn handed_to(pre: Self, post: Self, kitty_id: Dna, to: AccountId) -> bool {
        let k = pre.kitty_map()[kitty_id];
        let from_list = pre.owned_of(k.owner);
        &&& post.kitty_map() == pre.kitty_map().insert(kitty_id, handed_over(k, to))
        &&& post.owned_of(k.owner) == swap_removed(from_list, from_list.index_of(kitty_id))
        &&& post.owned_of(to) == pre.owned_of(to).push(kitty_id)
        &&& forall|a: AccountId| a != k.owner && a != to ==> post.owned_of(a) == pre.owned_of(a)
    }

    /// Transfer called by `from`: as `do_transfer`, after checking that the
    /// kitty exists (`NoKitty`) and that `from` owns it (`NotOwner`).
    pub fn transfer(&mut self, from: AccountId, to: AccountId, kitty_id: Dna) -> (r: Result<(), Error>)
        requires
            old(self).wf(),
        ensures
            final(self).wf(),
            final(self).capacity() == old(self).capacity(),
            final(self).kitty_count() == old(self).kitty_count(),
            !old(self).kitty_map().contains_key(kitty_id) ==> r == Err::<(), Error>(Error::NoKitty),
            old(self).kitty_map().contains_key(kitty_id) && old(self).kitty_map()[kitty_id].owner != from
                ==> r == Err::<(), Error>(Error::NotOwner),
            old(self).kitty_map().contains_key(kitty_id) && old(self).kitty_map()[kitty_id].owner == from
                && from == to ==> r == Err::<(), Error>(Error::TransferToSelf),
            old(self).kitty_map().contains_key(kitty_id) && old(self).kitty_map()[kitty_id].owner == from
                && from != to && old(self).owned_of(to).len() >= old(self).capacity()
                ==> r == Err::<(), Error>(Error::TooManyOwned),
            r is Ok <==> old(self).kitty_map().contains_key(kitty_id) && old(self).kitty_map()[kitty_id].owner == from
                && from != to && old(self).owned_of(to).len() < old(self).capacity(),
            r is Err ==> *final(self) == *old(self),
            r is Ok ==> {
                &&& old(self).kitty_map().contains_key(kitty_id)
                &&& old(self).kitty_map()[kitty_id].owner == from
                &&& Self::handed_to(*old(self), *final(self), kitty_id, to)
                &&& final(self).event_log() == old(self).event_log().push(
                    Event::Transferred { from, to, kitty: kitty_id },
                )
            },
    {
        match self.find(&kitty_id) {
            None => return Err(Error::NoKitty),
            Some(i) => {
                if self.kitties[i].owner != from {
                    return Err(Error::NotOwner);
                }
            },
        }
        self.do_transfer(kitty_id, to)
    }

    /// Sets the asking price of kitty `kitty_id` on behalf of `sender`
    /// (`None` takes it off sale) and deposits a `PriceSet` event. Fails with
    /// `NoKitty` or `NotOwner`, changing nothing.
    pub fn set_price(&mut self, sender: AccountId, kitty_id: Dna, new_price: Option<Balance>) -> (r: Result<(), Error>)
        requires
            old(self).wf(),
        ensures
            final(self).wf(),
            final(self).capacity() == old(self).capacity(),
            final(self).kitty_count() == old(self).kitty_count(),
            !old(self).kitty_map().contains_key(kitty_id) ==> r == Err::<(), Error>(Error::NoKitty),
            old(self).kitty_map().contains_key(kitty_id) && old(self).kitty_map()[kitty_id].owner != sender
                ==> r == Err::<(), Error>(Error::NotOwner),
            r is Ok <==> old(self).kitty_map().contains_key(kitty_id) && old(self).kitty_map()[kitty_id].owner == sender,
            r is Err ==> *final(self) == *old(self),
            r is Ok ==> {
                &&& old(self).kitty_map().contains_key(kitty_id)
                &&& old(self).kitty_map()[kitty_id].owner == sender
                &&& final(self).kitty_map() == old(self).kitty_map().insert(
                    kitty_id,
                    Kitty { price: new_price, ..old(self).kitty_map()[kitty_id] },
                )
                &&& forall|a: AccountId| final(self).owned_of(a) == old(self).owned_of(a)
                &&& final(self).event_log() == old(self).event_log().push(
                    Event::PriceSet { kitty: kitty_id, price: new_price },
                )
            },
    {
        let i = match self.find(&kitty_id) {
            Some(i) => i,
            None => return Err(Error::NoKitty),
        };
        let kitty = self.kitties[i];
        if kitty.owner != sender {
            return Err(Error::NotOwner);
        }
        self.reprice(i, new_price);
        self.deposit_event(Event::PriceSet { kitty: kitty_id, price: new_price });
        Ok(())
    }

    /// Sells kitty `kitty_id` to `to` for its asking price, paid through
    /// `ledger`. Fails, in this order, with `NoKitty`, `TransferToSelf` (the
    /// buyer owns it), `TooManyOwned` (the buyer has no room), `NotForSale`,
    /// `BidPriceTooLow` (`bid_price` under the price), and `PaymentFailed`
    /// if the ledger refuses; on any failure neither the store nor the
    /// ledger changes. Every check comes before the payment, and nothing can
    /// fail after it. On success the price moves from buyer to seller, the
    /// kitty changes hands as in a transfer, and `Sold` then `Transferred`
    /// are deposited.
    pub fn do_buy_kitty<L: Ledger>(
        &mut self,
        ledger: &mut L,
        kitty_id: Dna,
        to: AccountId,
        bid_price: Balance,
    ) -> (r: Result<(), Error>)
        requires
            old(self).wf(),
        ensures
            final(self).wf(),
            final(self).capacity() == old(self).capacity(),
            final(self).kitty_count() == old(self).kitty_count(),
            r == Self::buy_checks(*old(self), kitty_id, to, bid_price) || r == Err::<(), Error>(Error::PaymentFailed),
            r == Err::<(), Error>(Error::PaymentFailed) ==> Self::buy_checks(*old(self), kitty_id, to, bid_price) is Ok,
            r is Err ==> {
                &&& *final(self) == *old(self)
                &&& forall|c: AccountId| final(ledger).balance_of(c) == old(ledger).balance_of(c)
            },
            r is Ok ==> ({
                let k = old(self).kitty_map()[kitty_id];
                let price = k.price->Some_0;
                &&& old(self).kitty_map().contains_key(kitty_id)
                &&& Self::handed_to(*old(self), *final(self), kitty_id, to)
                &&& final(self).event_log() == old(self).event_log().push(
                    Event::Sold { seller: k.owner, buyer: to, kitty: kitty_id, price },
                ).push(Event::Transferred { from: k.owner, to, kitty: kitty_id })
                &&& final(ledger).balance_of(to) == old(ledger).balance_of(to) - price
                &&& final(ledger).balance_of(k.owner) == old(ledger).balance_of(k.owner) + price
                &&& forall|c: AccountId|
                    c != to && c != k.owner ==> final(ledger).balance_of(c) == old(ledger).balance_of(c)
            }),
    {
        let i = match self.find(&kitty_id) {
            Some(i) => i,
            None => return Err(Error::NoKitty),
        };
        let kitty = self.kitties[i];
        let from = kitty.owner;
        if from == to {
            return Err(Error::TransferToSelf);
        }
        if self.owned_len(to) >= self.max_kitties_owned {
            return Err(Error::TooManyOwned);
        }
        let price = match kitty.price {
            Some(p) => p,
            None => return Err(Error::NotForSale),
        };
        if bid_price < price {
            return Err(Error::BidPriceTooLow);
        }
        match ledger.transfer(to, from, price) {
            Ok(()) => {},
            Err(_) => return Err(Error::PaymentFailed),
        }
        let ghost pre = *self;
        self.deposit_event(Event::Sold { seller: from, buyer: to, kitty: kitty_id, price });
        let ghost mid = *self;
        assert forall|a: AccountId| #[trigger] mid.owned_of(a) == pre.owned_of(a) by {}
        assert(mid.kitty_map() == pre.kitty_map());
        self.hand_over(i, to);
        let ghost handed = *self;
        assert(Self::handed_to(mid, handed, kitty_id, to));
        self.deposit_event(Event::Transferred { from, to, kitty: kitty_id });
        assert forall|a: AccountId| a != from && a != to implies self.owned_of(a) == pre.owned_of(a) by {
            assert(self.owned_of(a) == handed.owned_of(a));
            assert(handed.owned_of(a) == mid.owned_of(a));
        }
        Ok(())
    }

    /// What the checks of a sale decide, before any payment: the first
    /// failing check's error, or `Ok` when the sale may go to the ledger.
    pub open spec fn buy_checks(pre: Self, kitty_id: Dna, to: AccountId, bid_price: Balance) -> Result<(), Error> {
        if !pre.kitty_map().contains_key(kitty_id) {
            Err(Error::NoKitty)
        } else if pre.kitty_map()[kitty_id].owner == to {
            Err(Error::TransferToSelf)
        } else if pre.owned_of(to).len() >= pre.capacity() {
            Err(Error::TooManyOwned)
        } else if pre.kitty_map()[kitty_id].price is None {
            Err(Error::NotForSale)
        } else if bid_price < pre.kitty_map()[kitty_id].price->Some_0 {
            Err(Error::BidPriceTooLow)
        } else {
            Ok(())
        }
    }

    /// Sets the price of the kitty stored at `i`.
    fn reprice(&mut self, i: usize, new_price: Option<Balance>)
        requires
            old(self).wf(),
            i < old(self).kitties.len(),
        ensures
            final(self).wf(),
            final(self).kitty_map() == old(self).kitty_map().insert(
                old(self).kitties@[i as int].dna,
                Kitty { price: new_price, ..old(self).kitties@[i as int] },
            ),
            final(self).kitties_owned == old(self).kitties_owned,
            final(self).count_for_kitties == old(self).count_for_kitties,
            final(self).max_kitties_owned == old(self).max_kitties_owned,
            final(self).events == old(self).events,
    {
        let ghost pre = *self;
        assert(pre.index@.contains_key(pre.kitties@[i as int].dna));
        let kitty = self.kitties[i];
        let kitty_id = kitty.dna;
        let priced = Kitty { price: new_price, ..kitty };
        self.kitties.set(i, priced);
        self.records = Ghost(self.records@.insert(kitty_id, priced));
        proof {
            assert forall|d: Dna| #[trigger] self.records@.contains_key(d) implies {
                &&& self.index@.contains_key(d)
                &&& self.index@[d] < self.kitties.len()
                &&& self.kitties@[self.index@[d] as int].dna == d
                &&& self.owned_of(self.records@[d].owner).contains(d)
            } by {
                assert(pre.records@.contains_key(d));
                assert(self.owned_of(self.records@[d].owner) == pre.owned_of(pre.records@[d].owner));
            }
            assert forall|j: int| 0 <= j < self.kitties.len() implies {
                &&& #[trigger] self.index@.contains_key(self.kitties@[j].dna)
                &&& self.index@[self.kitties@[j].dna] == j
                &&& self.records@.contains_key(self.kitties@[j].dna)
                &&& self.records@[self.kitties@[j].dna] == self.kitties@[j]
            } by {
                assert(pre.index@.contains_key(pre.kitties@[j].dna));
            }
            assert forall|a: AccountId, k: int| 0 <= k < self.owned_of(a).len() implies {
                &&& self.records@.contains_key(#[trigger] self.owned_of(a)[k])
                &&& self.records@[self.owned_of(a)[k]].owner == a
            } by {
                assert(pre.records@.contains_key(pre.owned_of(a)[k]));
            }
            assert forall|a: AccountId| {
                &&& (#[trigger] self.owned_of(a)).no_duplicates()
                &&& self.owned_of(a).len() <= self.max_kitties_owned
            } by {
                assert(self.owned_of(a) == pre.owned_of(a));
                assert(pre.owned_of(a).no_duplicates());
            }
        }
    }

    /// Appends `e` to the event log.
    fn deposit_event(&mut self, e: Event)
        requires
            old(self).wf(),
        ensures
            final(self).wf(),
            final(self).event_log() == old(self).event_log().push(e),
            final(self).kitties == old(self).kitties,
            final(self).kitties_owned == old(self).kitties_owned,
            final(self).records == old(self).records,
            final(self).index == old(self).index,
            final(self).count_for_kitties == old(self).count_for_kitties,
            final(self).max_kitties_owned == old(self).max_kitties_owned,
    {
        let ghost pre = *self;
        self.events.push(e);
        assert forall|a: AccountId| #[trigger] self.owned_of(a) == pre.owned_of(a) by {}
    }
}

/// Whether two identities are equal, byte by byte.
pub fn dna_eq(a: &Dna, b: &Dna) -> (r: bool)
    ensures
        r == (*a == *b),
{
    let mut i: usize = 0;
    while i < 16
        invariant
            i <= 16,
            forall|k: int| 0 <= k < i ==> a[k] == b[k],
        decreases 16 - i,
    {
        if a[i] != b[i] {
            return false;
        }
        i += 1;
    }
    assert(*a =~= *b);
    true
}


/// Where `dna` stands in a list that holds it.
fn position_of(list: &Vec<Dna>, dna: &Dna) -> (r: usize)
    requires
        list@.contains(*dna),
    ensures
        r < list.len(),
        list@[r as int] == *dna,
{
    let mut i: usize = 0;
    while i < list.len()
        invariant
            list@.contains(*dna),
            i <= list.len(),
            forall|k: int| 0 <= k < i ==> list@[k] != *dna,
        decreases list.len() - i,
    {
        if dna_eq(&list[i], dna) {
            return i;
        }
        i += 1;
    }
    proof {
        let k = choose|k: int| 0 <= k < list.len() && list@[k] == *dna;
        assert(list@[k] == *dna);
    }
    0
}

/// Swap removal keeps a list free of repeats and takes out exactly the
/// element at `i`.
proof fn lemma_swap_removed(s: Seq<Dna>, i: int)
    requires
        0 <= i < s.len(),
        s.no_duplicates(),
    ensures
        swap_removed(s, i).no_duplicates(),
        swap_removed(s, i).len() == s.len() - 1,
        forall|x: Dna| #[trigger] swap_removed(s, i).contains(x) <==> (s.contains(x) && x != s[i]),
{
    let r = swap_removed(s, i);
    let n = s.len() - 1;
    assert forall|k: int| 0 <= k < n implies #[trigger] r[k] == (if k == i { s[n] } else { s[k] }) by {}
    assert forall|x: Dna| #[trigger] r.contains(x) implies (s.contains(x) && x != s[i]) by {
        let k = choose|k: int| 0 <= k < n && r[k] == x;
        if k == i {
            assert(s[n] == x);
        } else {
            assert(s[k] == x);
        }
    }
    assert forall|x: Dna| s.contains(x) && x != s[i] implies #[trigger] r.contains(x) by {
        let j = choose|j: int| 0 <= j < s.len() && s[j] == x;
        if j == n {
            assert(r[i] == x);
        } else {
            assert(r[j] == x);
        }
    }
    assert forall|k1: int, k2: int| 0 <= k1 < n && 0 <= k2 < n && k1 != k2 implies r[k1] != r[k2] by {
        let j1 = if k1 == i { n } else { k1 };
        let j2 = if k2 == i { n } else { k2 };
        assert(r[k1] == s[j1]);
        assert(r[k2] == s[j2]);
    }
}


/// A successful mint took an identity that was free and left a record owned
/// by the caller with no price.
pub proof fn lemma_mint_takes_free_identity(
    pre: Pallet,
    post: Pallet,
    owner: AccountId,
    dna: Dna,
    gender: Gender,
    r: Result<Dna, Error>,
)
    requires
        Pallet::minted(pre, post, owner, dna, gender, r),
        r is Ok,
    ensures
        r == Ok::<Dna, Error>(dna),
        !pre.kitty_map().contains_key(dna),
        post.kitty_map().contains_key(dna),
        post.kitty_map()[dna].owner == owner,
        post.kitty_map()[dna].price is None,
        post.kitty_map()[dna].gender == gender,
{
}

/// In a well-formed store each identity on an account's list has a record,
/// and that record's owner is the account.
pub proof fn lemma_listed_kitties_are_owned(p: Pallet, a: AccountId, k: int)
    requires
        p.wf(),
        0 <= k < p.owned_of(a).len(),
    ensures
        p.kitty_map().contains_key(p.owned_of(a)[k]),
        p.kitty_map()[p.owned_of(a)[k]].owner == a,
{
}

/// In a well-formed store an identity stands on the list of at most one
/// account.
pub proof fn lemma_listed_once(p: Pallet, a: AccountId, b: AccountId, d: Dna)
    requires
        p.wf(),
        p.owned_of(a).contains(d),
        p.owned_of(b).contains(d),
    ensures
        a == b,
{
    let i = choose|i: int| 0 <= i < p.owned_of(a).len() && p.owned_of(a)[i] == d;
    let j = choose|j: int| 0 <= j < p.owned_of(b).len() && p.owned_of(b)[j] == d;
    lemma_listed_kitties_are_owned(p, a, i);
    lemma_listed_kitties_are_owned(p, b, j);
}

/// Transferring a kitty from `a` to `b` and back gives it back to `a`; each
/// of the two steps leaves it without a price, and apart from the price its
/// record is as it was.
pub proof fn lemma_transfer_round_trip(
    s0: Pallet,
    s1: Pallet,
    s2: Pallet,
    kitty_id: Dna,
    a: AccountId,
    b: AccountId,
)
    requires
        s0.kitty_map().contains_key(kitty_id),
        s0.kitty_map()[kitty_id].owner == a,
        Pallet::handed_to(s0, s1, kitty_id, b),
        Pallet::handed_to(s1, s2, kitty_id, a),
    ensures
        s1.kitty_map()[kitty_id].owner == b,
        s1.kitty_map()[kitty_id].price is None,
        s2.kitty_map()[kitty_id].owner == a,
        s2.kitty_map()[kitty_id].price is None,
        s2.kitty_map() == s0.kitty_map().insert(kitty_id, Kitty { price: None, ..s0.kitty_map()[kitty_id] }),
{
    assert(s2.kitty_map() =~= s0.kitty_map().insert(
        kitty_id,
        Kitty { price: None, ..s0.kitty_map()[kitty_id] },
    ));
}

/// After a sale the kitty has no price, so a second purchase of it, by any
/// account other than the new owner that has room for it, fails with
/// `NotForSale`.
pub proof fn lemma_sold_kitty_not_for_sale(
    s0: Pallet,
    s1: Pallet,
    kitty_id: Dna,
    buyer: AccountId,
    other: AccountId,
    bid_price: Balance,
)
    requires
        s0.kitty_map().contains_key(kitty_id),
        Pallet::handed_to(s0, s1, kitty_id, buyer),
        other != buyer,
        s1.owned_of(other).len() < s1.capacity(),
    ensures
        s1.kitty_map()[kitty_id].price is None,
        Pallet::buy_checks(s1, kitty_id, other, bid_price) == Err::<(), Error>(Error::NotForSale),
{
}

} // verus!
