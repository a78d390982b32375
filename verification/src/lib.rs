pub mod types;

use std::collections::HashMap;
use vstd::prelude::*;

pub use crate::types::AccountId;
pub use crate::types::AskBid;
pub use crate::types::Balance;
pub use crate::types::Bounty;
pub use crate::types::Error;
pub use crate::types::IpfsHash;
pub use crate::types::Transfer;

verus! {

broadcast use vstd::std_specs::hash::group_hash_axioms;

/// Notification emitted after a bid is accepted, for off-chain observers.
pub struct Bid {
    pub id: u32,
    pub bidder: AccountId,
    pub bid_amount: Option<Balance>,
    pub bid_data: IpfsHash,
}

/// Notification emitted after a settlement that moved funds.
#[derive(Clone, Copy, Debug, PartialEq, Eq, Structural)]
pub struct Settle {
    pub id: u32,
    pub asker: AccountId,
    pub bidder: AccountId,
    pub amount: Balance,
}

/// The escrow-backed bounty marketplace: active bounty records, the
/// identifier allocator, and the dense index of active ids.
pub struct Bountify {
    active_bounties: HashMap<u32, Bounty>,
    bounty_counter: u32,
    bounty_lookup_table: Vec<u32>,
}

impl Bountify {
    /// Mapping from bounty id to its record; the sole source of truth.
    pub closed spec fn bounties(self) -> Map<u32, Bounty> {
        self.active_bounties@
    }

    /// The dense, unordered index of active bounty ids.
    pub closed spec fn lookup(self) -> Seq<u32> {
        self.bounty_lookup_table@
    }

    /// The next identifier to hand out; strictly increasing, never reused.
    pub closed spec fn counter(self) -> u32 {
        self.bounty_counter
    }

    /// Well-formedness, preserved by every operation: the index and the
    /// store agree on membership, the index holds no duplicates, every
    /// record is filed under its own id, respects its mode, and carries an
    /// id below the counter (so ids are never reused).
    pub open spec fn wf(self) -> bool {
        &&& forall|id: u32|
            self.lookup().contains(id) <==> #[trigger] self.bounties().contains_key(id)
        &&& forall|i: int, j: int|
            0 <= i < j < self.lookup().len() ==> self.lookup()[i] != self.lookup()[j]
        &&& forall|id: u32|
            #[trigger] self.bounties().contains_key(id) ==> {
                &&& self.bounties()[id].id == id
                &&& self.bounties()[id].wf()
                &&& id < self.counter()
            }
    }

    /// An empty marketplace: no bounties, identifiers start at 0.
    pub fn new() -> (r: Self)
        ensures
            r.wf(),
            r.counter() == 0,
            r.bounties() == Map::<u32, Bounty>::empty(),
            r.lookup() == Seq::<u32>::empty(),
    {
        Bountify {
            active_bounties: HashMap::new(),
            bounty_counter: 0,
            bounty_lookup_table: Vec::new(),
        }
    }

    /// The next identifier to be handed out; lets callers check that the
    /// id space is not exhausted before creating a bounty.
    pub fn bounty_counter(&self) -> (r: u32)
        ensures
            r == self.counter(),
    {
        self.bounty_counter
    }

    /// Returns the current counter value, then increments it.
    pub fn get_and_increment_bounty_counter(&mut self) -> (r: u32)
        requires
            old(self).counter() < u32::MAX,
        ensures
            r == old(self).counter(),
            final(self).counter() == old(self).counter() + 1,
            final(self).bounties() == old(self).bounties(),
            final(self).lookup() == old(self).lookup(),
            old(self).wf() ==> final(self).wf(),
    {
        let id = self.bounty_counter;
        self.bounty_counter = self.bounty_counter + 1;
        id
    }

    /// Opens a new bounty for `caller`, escrowing `transferred` units of
    /// value received with the call. With `amount = Some(a)` the bounty is
    /// in commission mode and the call must have transferred exactly `a`,
    /// else it fails with `StakeMismatch` and changes nothing. With
    /// `amount = None` the bounty is in auction mode and escrows nothing.
    pub fn create_bounty(
        &mut self,
        content: IpfsHash,
        amount: Option<Balance>,
        caller: AccountId,
        transferred: Balance,
    ) -> (r: Result<(), Error>)
        requires
            old(self).wf(),
            old(self).counter() < u32::MAX,
        ensures
            final(self).wf(),
            (match amount {
                Some(a) => transferred != a,
                None => false,
            }) ==> r == Err::<(), Error>(Error::StakeMismatch) && *final(self) == *old(self),
            (match amount {
                Some(a) => transferred == a,
                None => true,
            }) ==> {
                &&& r is Ok
                &&& final(self).counter() == old(self).counter() + 1
                &&& final(self).bounties() == old(self).bounties().insert(
                    old(self).counter(),
                    Bounty {
                        id: old(self).counter(),
                        ask: AskBid { doer: caller, data: content, amount },
                        current_bid: None,
                    },
                )
                &&& final(self).lookup() == old(self).lookup().push(old(self).counter())
            },
    {
        if let Some(a) = amount {
            if transferred != a {
                return Err(Error::StakeMismatch);
            }
        }
        let id = self.get_and_increment_bounty_counter();
        let bounty = Bounty {
            id,
            ask: AskBid { doer: caller, data: content, amount },
            current_bid: None,
        };
        self.active_bounties.insert(id, bounty);
        self.bounty_lookup_table.push(id);
        proof {
            let pre = *old(self);
            let post = *self;
            assert forall|x: u32|
                post.lookup().contains(x) <==> #[trigger] post.bounties().contains_key(x) by {
                if post.lookup().contains(x) {
                    let k = choose|k: int| 0 <= k < post.lookup().len() && post.lookup()[k] == x;
                    if k < pre.lookup().len() {
                        assert(pre.lookup().contains(x));
                    } else {
                        assert(x == id);
                    }
                }
                if post.bounties().contains_key(x) {
                    if x == id {
                        assert(post.lookup()[post.lookup().len() - 1] == x);
                    } else {
                        assert(pre.bounties().contains_key(x));
                        let k = choose|k: int|
                            0 <= k < pre.lookup().len() && pre.lookup()[k] == x;
                        assert(post.lookup()[k] == x);
                    }
                }
            }
            assert forall|i: int, j: int|
                0 <= i < j < post.lookup().len() implies post.lookup()[i] != post.lookup()[j] by {
                if j == post.lookup().len() - 1 {
                    assert(pre.lookup().contains(pre.lookup()[i]));
                    assert(pre.bounties().contains_key(pre.lookup()[i]));
                }
            }
        }
        Ok(())
    }

    /// What submitting a bid would do against the current state: the error
    /// it fails with, or on success the refund owed to the outbid bidder
    /// (`None` when no stake is held). The mode branch goes by the shape of
    /// `amount`: a staked bid is only valid against an auction-mode bounty,
    /// a stakeless bid only against a commission-mode one.
    pub open spec fn spec_check_bid(
        self,
        id: u32,
        amount: Option<Balance>,
        transferred: Balance,
    ) -> Result<Option<Transfer>, Error> {
        if !self.bounties().contains_key(id) {
            Err(Error::NotFound)
        } else {
            let b = self.bounties()[id];
            match amount {
                Some(a) => {
                    if b.ask.amount is Some {
                        Err(Error::InvalidBidShape)
                    } else if transferred != a {
                        Err(Error::StakeMismatch)
                    } else {
                        match b.current_bid {
                            None => Ok(None),
                            Some(prev) => match prev.amount {
                                Some(p) => if a <= p {
                                    Err(Error::BidTooLow)
                                } else {
                                    Ok(Some(Transfer { to: prev.doer, amount: p }))
                                },
                                None => Err(Error::LogicError),
                            },
                        }
                    }
                },
                None => {
                    if b.ask.amount is None {
                        Err(Error::InvalidBidShape)
                    } else {
                        Ok(None)
                    }
                },
            }
        }
    }

    /// Read-only validation of a bid. On success it names the refund that
    /// the ledger must complete before the bid may be committed; the glue
    /// around the core performs that transfer and only then calls
    /// `bid_for_bounty`, reporting `TransferFailed` if the ledger refused.
    pub fn check_bid(&self, id: u32, amount: Option<Balance>, transferred: Balance) -> (r:
        Result<Option<Transfer>, Error>)
        ensures
            r == self.spec_check_bid(id, amount, transferred),
    {
        let bounty = match self.active_bounties.get(&id) {
            Some(b) => b,
            None => {
                return Err(Error::NotFound);
            },
        };
        match amount {
            Some(a) => {
                if bounty.ask.amount.is_some() {
                    Err(Error::InvalidBidShape)
                } else if transferred != a {
                    Err(Error::StakeMismatch)
                } else {
                    match &bounty.current_bid {
                        None => Ok(None),
                        Some(prev) => match prev.amount {
                            Some(p) => if a <= p {
                                Err(Error::BidTooLow)
                            } else {
                                Ok(Some(Transfer { to: prev.doer, amount: p }))
                            },
                            None => Err(Error::LogicError),
                        },
                    }
                }
            },
            None => {
                if bounty.ask.amount.is_none() {
                    Err(Error::InvalidBidShape)
                } else {
                    Ok(None)
                }
            },
        }
    }

    /// Applies a bid: validates it exactly as `check_bid` does and, on
    /// success, makes `caller`'s proposal the bounty's current bid,
    /// returning the notification to emit. The previous bidder's refund, if
    /// any, must already have been completed by the surrounding glue (see
    /// `check_bid`); on any error the state is unchanged.
    pub fn bid_for_bounty(
        &mut self,
        id: u32,
        content: IpfsHash,
        amount: Option<Balance>,
        caller: AccountId,
        transferred: Balance,
    ) -> (r: Result<Bid, Error>)
        requires
            old(self).wf(),
        ensures
            final(self).wf(),
            (match old(self).spec_check_bid(id, amount, transferred) {
                Err(e) => r matches Err(e2) && e2 == e && *final(self) == *old(self),
                Ok(_) => {
                    &&& r matches Ok(ev) && ev == (Bid {
                        id,
                        bidder: caller,
                        bid_amount: amount,
                        bid_data: content,
                    })
                    &&& final(self).bounties() == old(self).bounties().insert(
                        id,
                        Bounty {
                            id,
                            ask: old(self).bounties()[id].ask,
                            current_bid: Some(AskBid { doer: caller, data: content, amount }),
                        },
                    )
                    &&& final(self).lookup() == old(self).lookup()
                    &&& final(self).counter() == old(self).counter()
                },
            }),
    {
        match self.check_bid(id, amount, transferred) {
            Err(e) => Err(e),
            Ok(_) => {
                let bounty = match self.active_bounties.get(&id) {
                    Some(b) => b,
                    None => unreached(),
                };
                let updated = Bounty {
                    id,
                    ask: bounty.ask.clone(),
                    current_bid: Some(
                        AskBid { doer: caller, data: content.clone(), amount },
                    ),
                };
                self.active_bounties.insert(id, updated);
                proof {
                    let pre = *old(self);
                    let post = *self;
                    assert forall|x: u32|
                        post.lookup().contains(x)
                            <==> #[trigger] post.bounties().contains_key(x) by {
                        assert(pre.lookup().contains(x) <==> pre.bounties().contains_key(x));
                    }
                }
                Ok(Bid { id, bidder: caller, bid_amount: amount, bid_data: content })
            },
        }
    }

    /// What settling would do against the current state: the error it fails
    /// with, or on success the single ledger transfer it requires (`None`
    /// when the bounty has no bid: it is then removed with no transfer and
    /// no notification, and any commission-mode escrow stays with the
    /// contract). In commission mode the chosen bidder is paid the escrowed
    /// ask amount; in auction mode the asker is paid the winning stake.
    pub open spec fn spec_check_settle(self, id: u32, caller: AccountId) -> Result<
        Option<Transfer>,
        Error,
    > {
        if !self.bounties().contains_key(id) {
            Err(Error::NotFound)
        } else {
            let b = self.bounties()[id];
            if b.ask.doer != caller {
                Err(Error::Unauthorized)
            } else {
                match b.current_bid {
                    None => Ok(None),
                    Some(chosen) => match b.ask.amount {
                        Some(a) => Ok(Some(Transfer { to: chosen.doer, amount: a })),
                        None => match chosen.amount {
                            Some(a) => Ok(Some(Transfer { to: b.ask.doer, amount: a })),
                            None => Err(Error::LogicError),
                        },
                    },
                }
            }
        }
    }

    /// The notification a successful settlement emits: one for each
    /// settlement that moved funds, none for the no-bid removal.
    pub open spec fn spec_settle_event(self, id: u32, caller: AccountId) -> Option<Settle> {
        match self.spec_check_settle(id, caller) {
            Ok(opt) => match opt {
                Some(t) => match self.bounties()[id].current_bid {
                    Some(chosen) => Some(
                        Settle { id, asker: caller, bidder: chosen.doer, amount: t.amount },
                    ),
                    None => None,
                },
                None => None,
            },
            Err(_) => None,
        }
    }

    /// Read-only validation of a settlement. On success it names the payout
    /// that the ledger must complete before the removal may be committed;
    /// the glue around the core performs that transfer and only then calls
    /// `settle`, reporting `TransferFailed` if the ledger refused.
    pub fn check_settle(&self, id: u32, caller: AccountId) -> (r: Result<Option<Transfer>, Error>)
        ensures
            r == self.spec_check_settle(id, caller),
    {
        let bounty = match self.active_bounties.get(&id) {
            Some(b) => b,
            None => {
                return Err(Error::NotFound);
            },
        };
        if bounty.ask.doer != caller {
            return Err(Error::Unauthorized);
        }
        match &bounty.current_bid {
            None => Ok(None),
            Some(chosen) => match bounty.ask.amount {
                Some(a) => Ok(Some(Transfer { to: chosen.doer, amount: a })),
                None => match chosen.amount {
                    Some(a) => Ok(Some(Transfer { to: bounty.ask.doer, amount: a })),
                    None => Err(Error::LogicError),
                },
            },
        }
    }

    /// Resolves a bounty: validates exactly as `check_settle` does and, on
    /// success, removes it from the store and from the index, returning the
    /// notification to emit (if funds moved). Only the asker may settle.
    /// The payout, if any, must already have been completed by the
    /// surrounding glue (see `check_settle`); on any error the state is
    /// unchanged. The index removal swaps the last id into the freed slot,
    /// so enumeration order is not preserved, but membership of every other
    /// id is.
    pub fn settle(&mut self, id: u32, caller: AccountId) -> (r: Result<Option<Settle>, Error>)
        requires
            old(self).wf(),
        ensures
            final(self).wf(),
            (match old(self).spec_check_settle(id, caller) {
                Err(e) => r matches Err(e2) && e2 == e && *final(self) == *old(self),
                Ok(_) => {
                    &&& r matches Ok(ev) && ev == old(self).spec_settle_event(id, caller)
                    &&& final(self).bounties() == old(self).bounties().remove(id)
                    &&& !final(self).lookup().contains(id)
                    &&& final(self).lookup().len() == old(self).lookup().len() - 1
                    &&& forall|x: u32|
                        x != id ==> (final(self).lookup().contains(x) <==> old(
                            self,
                        ).lookup().contains(x))
                    &&& final(self).counter() == old(self).counter()
                },
            }),
    {
        let event: Option<Settle> = match self.check_settle(id, caller) {
            Err(e) => {
                return Err(e);
            },
            Ok(transfer) => {
                match (&transfer, self.active_bounties.get(&id)) {
                    (Some(t), Some(bounty)) => match &bounty.current_bid {
                        Some(chosen) => Some(
                            Settle { id, asker: caller, bidder: chosen.doer, amount: t.amount },
                        ),
                        None => None,
                    },
                    _ => None,
                }
            },
        };
        self.active_bounties.remove(&id);
        let mut i: usize = 0;
        let n = self.bounty_lookup_table.len();
        while i < n
            invariant
                old(self).wf(),
                old(self).spec_check_settle(id, caller) is Ok,
                event == old(self).spec_settle_event(id, caller),
                self.bounties() == old(self).bounties().remove(id),
                self.lookup() == old(self).lookup(),
                self.counter() == old(self).counter(),
                n == self.bounty_lookup_table.len(),
                0 <= i <= n,
                forall|k: int| 0 <= k < i ==> self.bounty_lookup_table@[k] != id,
            decreases n - i,
        {
            if self.bounty_lookup_table[i] == id {
                self.bounty_lookup_table.swap_remove(i);
                proof {
                    let pre = *old(self);
                    let post = *self;
                    lemma_swap_remove_membership(pre.lookup(), post.lookup(), i as int, id);
                    assert forall|x: u32|
                        post.lookup().contains(x)
                            <==> #[trigger] post.bounties().contains_key(x) by {
                        assert(pre.lookup().contains(x) <==> pre.bounties().contains_key(x));
                    }
                }
                return Ok(event);
            }
            i = i + 1;
        }
        proof {
            // The id is in the store, hence in the index, so the loop above
            // cannot run off the end.
            assert(old(self).lookup().contains(id));
            let k = choose|k: int|
                0 <= k < old(self).lookup().len() && old(self).lookup()[k] == id;
            assert(false);
        }
        Ok(event)
    }

    /// Whether the authority override is allowed: it exists only for
    /// commission-mode bounties and only for their asker.
    pub open spec fn spec_check_force_set(self, id: u32, caller: AccountId) -> Option<Error> {
        if !self.bounties().contains_key(id) {
            Some(Error::NotFound)
        } else if self.bounties()[id].ask.doer != caller {
            Some(Error::Unauthorized)
        } else if self.bounties()[id].ask.amount is None {
            Some(Error::InvalidBidShape)
        } else {
            None
        }
    }

    /// Authority override for commission mode: the asker directly names
    /// `bidder` as the current bid's proposer, without that bidder having
    /// bid. No value moves, so no stake logic applies. Fails for anyone but
    /// the asker and for auction-mode bounties; on any error the state is
    /// unchanged.
    pub fn force_set_current_bid(
        &mut self,
        id: u32,
        bidder: AccountId,
        bid_data: IpfsHash,
        caller: AccountId,
    ) -> (r: Result<(), Error>)
        requires
            old(self).wf(),
        ensures
            final(self).wf(),
            (match old(self).spec_check_force_set(id, caller) {
                Some(e) => r matches Err(e2) && e2 == e && *final(self) == *old(self),
                None => {
                    &&& r is Ok
                    &&& final(self).bounties() == old(self).bounties().insert(
                        id,
                        Bounty {
                            id,
                            ask: old(self).bounties()[id].ask,
                            current_bid: Some(
                                AskBid { doer: bidder, data: bid_data, amount: None },
                            ),
                        },
                    )
                    &&& final(self).lookup() == old(self).lookup()
                    &&& final(self).counter() == old(self).counter()
                },
            }),
    {
        let bounty = match self.active_bounties.get(&id) {
            Some(b) => b,
            None => {
                return Err(Error::NotFound);
            },
        };
        if bounty.ask.doer != caller {
            return Err(Error::Unauthorized);
        }
        if bounty.ask.amount.is_none() {
            return Err(Error::InvalidBidShape);
        }
        let updated = Bounty {
            id,
            ask: bounty.ask.clone(),
            current_bid: Some(AskBid { doer: bidder, data: bid_data, amount: None }),
        };
        self.active_bounties.insert(id, updated);
        proof {
            let pre = *old(self);
            let post = *self;
            assert forall|x: u32|
                post.lookup().contains(x) <==> #[trigger] post.bounties().contains_key(x) by {
                assert(pre.lookup().contains(x) <==> pre.bounties().contains_key(x));
            }
        }
        Ok(())
    }

    /// The records the index enumerates, in index order.
    pub open spec fn bounties_snapshot(self) -> Seq<Bounty> {
        Seq::new(self.lookup().len(), |i: int| self.bounties()[self.lookup()[i]])
    }

    /// A snapshot of every active bounty, in index order (which removal
    /// does not keep stable). Never mutates state.
    pub fn get_bounties(&self) -> (r: Vec<Bounty>)
        requires
            self.wf(),
        ensures
            r@ == self.bounties_snapshot(),
    {
        let n = self.bounty_lookup_table.len();
        let mut bounties: Vec<Bounty> = Vec::with_capacity(n);
        let mut i: usize = 0;
        while i < n
            invariant
                self.wf(),
                n == self.bounty_lookup_table.len(),
                0 <= i <= n,
                bounties@ == self.bounties_snapshot().subrange(0, i as int),
            decreases n - i,
        {
            let id = self.bounty_lookup_table[i];
            proof {
                assert(self.lookup().contains(id));
            }
            let bounty = match self.active_bounties.get(&id) {
                Some(b) => b.clone(),
                None => unreached(),
            };
            bounties.push(bounty);
            proof {
                assert(bounties@ =~= self.bounties_snapshot().subrange(0, i + 1));
            }
            i = i + 1;
        }
        proof {
            assert(bounties@ =~= self.bounties_snapshot());
        }
        bounties
    }

    /// A snapshot of the active bounties whose asker is `account_id`, in
    /// index order. Never mutates state.
    pub fn get_bounties_for_user(&self, account_id: AccountId) -> (r: Vec<Bounty>)
        requires
            self.wf(),
        ensures
            r@ == self.bounties_snapshot().filter(|b: Bounty| b.ask.doer == account_id),
    {
        let n = self.bounty_lookup_table.len();
        let mut bounties: Vec<Bounty> = Vec::new();
        let mut i: usize = 0;
        while i < n
            invariant
                self.wf(),
                n == self.bounty_lookup_table.len(),
                0 <= i <= n,
                bounties@ == self.bounties_snapshot().subrange(0, i as int).filter(
                    |b: Bounty| b.ask.doer == account_id,
                ),
            decreases n - i,
        {
            let id = self.bounty_lookup_table[i];
            proof {
                assert(self.lookup().contains(id));
            }
            let bounty = match self.active_bounties.get(&id) {
                Some(b) => b.clone(),
                None => unreached(),
            };
            proof {
                let pred = |b: Bounty| b.ask.doer == account_id;
                let prefix = self.bounties_snapshot().subrange(0, i as int);
                let next = self.bounties_snapshot().subrange(0, i + 1);
                assert(next.drop_last() =~= prefix);
                assert(next.last() == bounty);
                reveal(Seq::filter);
            }
            if bounty.ask.doer == account_id {
                bounties.push(bounty);
            }
            i = i + 1;
        }
        proof {
            assert(self.bounties_snapshot().subrange(0, n as int) =~= self.bounties_snapshot());
        }
        bounties
    }
}

/// Index/store consistency law: in any well-formed marketplace state, an
/// id is enumerated by the lookup index exactly when a live record with
/// that id is in the store. Every operation of `Bountify` requires and
/// preserves `wf`, so this holds after any sequence of operations.
pub proof fn lemma_index_store_consistent(m: Bountify)
    requires
        m.wf(),
    ensures
        forall|id: u32| m.lookup().contains(id) <==> #[trigger] m.bounties().contains_key(id),
{
}

/// Auction bidding law: against a bounty whose accepted bid stakes `p`, a
/// new bid staking `a` (with the stake transferred in full) fails with
/// `BidTooLow` exactly when `a <= p`; when `a > p` it is accepted and the
/// whole previous stake `p` is owed back to the outbid bidder before the
/// new bid is committed.
pub proof fn lemma_auction_outbid(m: Bountify, id: u32, a: Balance)
    requires
        m.wf(),
        m.bounties().contains_key(id),
        m.bounties()[id].ask.amount is None,
        m.bounties()[id].current_bid is Some,
    ensures
        ({
            let prev = m.bounties()[id].current_bid.unwrap();
            &&& prev.amount is Some
            &&& a <= prev.amount.unwrap() ==> m.spec_check_bid(id, Some(a), a) == Err::<
                Option<Transfer>,
                Error,
            >(Error::BidTooLow)
            &&& a > prev.amount.unwrap() ==> m.spec_check_bid(id, Some(a), a) == Ok::<
                Option<Transfer>,
                Error,
            >(Some(Transfer { to: prev.doer, amount: prev.amount.unwrap() }))
        }),
{
}

/// Swap-and-truncate removal of the element at `i` keeps every other
/// element's membership, drops one occurrence of `removed`, and shrinks the
/// sequence by one; with no duplicates present, `removed` is gone entirely.
proof fn lemma_swap_remove_membership(pre: Seq<u32>, post: Seq<u32>, i: int, removed: u32)
    requires
        0 <= i < pre.len(),
        pre[i] == removed,
        forall|p: int, q: int| 0 <= p < q < pre.len() ==> pre[p] != pre[q],
        post == pre.update(i, pre.last()).drop_last(),
    ensures
        post.len() == pre.len() - 1,
        !post.contains(removed),
        forall|x: u32| x != removed ==> (post.contains(x) <==> pre.contains(x)),
        forall|p: int, q: int| 0 <= p < q < post.len() ==> post[p] != post[q],
{
    let swapped = pre.update(i, pre.last());
    assert forall|x: u32| x != removed implies (post.contains(x) <==> pre.contains(x)) by {
        if post.contains(x) {
            let k = choose|k: int| 0 <= k < post.len() && post[k] == x;
            if k == i {
                assert(pre[pre.len() - 1] == x);
            } else {
                assert(pre[k] == x);
            }
            assert(pre.contains(x));
        }
        if pre.contains(x) {
            let k = choose|k: int| 0 <= k < pre.len() && pre[k] == x;
            if k == pre.len() - 1 {
                if i < pre.len() - 1 {
                    assert(post[i] == x);
                } else {
                    assert(pre[i] == removed);
                }
            } else {
                if k == i {
                    assert(pre[i] == removed);
                } else {
                    assert(post[k] == x);
                }
            }
        }
    }
    assert forall|k: int| 0 <= k < post.len() implies post[k] != removed by {
        if k == i {
            assert(post[k] == pre.last());
        } else {
            assert(post[k] == pre[k]);
        }
    }
    if post.contains(removed) {
        let k = choose|k: int| 0 <= k < post.len() && post[k] == removed;
        assert(false);
    }
    assert forall|p: int, q: int| 0 <= p < q < post.len() implies post[p] != post[q] by {
        if p == i {
            assert(post[p] == pre.last() && post[q] == pre[q]);
        } else if q == i {
            assert(post[q] == pre.last() && post[p] == pre[p]);
        } else {
            assert(post[p] == pre[p] && post[q] == pre[q]);
        }
    }
}

impl Default for Bountify {
    /// Same empty marketplace as `new`.
    fn default() -> (r: Self)
        ensures
            r.wf(),
            r.counter() == 0,
            r.bounties() == Map::<u32, Bounty>::empty(),
            r.lookup() == Seq::<u32>::empty(),
    {
        Bountify::new()
    }
}

} // verus!
