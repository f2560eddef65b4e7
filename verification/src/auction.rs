//! The deterministic in-memory auction book the engine dispatches to.
//!
//! The auction house proper (bidding, clearing) is an external
//! collaborator; this stand-in records the collateral auctions the
//! engine creates, assigns identifiers, and answers the aggregate
//! queries the engine's contracts speak of.

use crate::types::{AccountId, AuctionId, Balance, CollateralAuction, CurrencyId, Error};
use vstd::prelude::*;

verus! {

/// First auction with the given identifier, scanning from the front.
pub open spec fn spec_find_auction(s: Seq<CollateralAuction>, id: AuctionId) -> Option<
    CollateralAuction,
>
    decreases s.len(),
{
    if s.len() == 0 {
        None
    } else if s[0].id == id {
        Some(s[0])
    } else {
        spec_find_auction(s.drop_first(), id)
    }
}

/// Total collateral of type `c` locked in the listed auctions.
pub open spec fn spec_auction_total(s: Seq<CollateralAuction>, c: CurrencyId) -> int
    decreases s.len(),
{
    if s.len() == 0 {
        0
    } else {
        (if s[0].currency_id == c {
            s[0].amount as int
        } else {
            0
        }) + spec_auction_total(s.drop_first(), c)
    }
}

proof fn lemma_auction_total_nonneg(s: Seq<CollateralAuction>, c: CurrencyId)
    ensures
        spec_auction_total(s, c) >= 0,
    decreases s.len(),
{
    if s.len() > 0 {
        lemma_auction_total_nonneg(s.drop_first(), c);
    }
}

proof fn lemma_find_auction_skip_unfold(s: Seq<CollateralAuction>, i: int, id: AuctionId)
    requires
        0 <= i < s.len(),
    ensures
        spec_find_auction(s.skip(i), id) == if s[i].id == id {
            Some(s[i])
        } else {
            spec_find_auction(s.skip(i + 1), id)
        },
{
    assert(s.skip(i).len() > 0);
    assert(s.skip(i)[0] == s[i]);
    assert(s.skip(i).drop_first() =~= s.skip(i + 1));
}

proof fn lemma_auction_total_skip_unfold(s: Seq<CollateralAuction>, i: int, c: CurrencyId)
    requires
        0 <= i < s.len(),
    ensures
        spec_auction_total(s.skip(i), c) == (if s[i].currency_id == c {
            s[i].amount as int
        } else {
            0
        }) + spec_auction_total(s.skip(i + 1), c),
{
    assert(s.skip(i).len() > 0);
    assert(s.skip(i)[0] == s[i]);
    assert(s.skip(i).drop_first() =~= s.skip(i + 1));
}

proof fn lemma_auction_total_push(s: Seq<CollateralAuction>, a: CollateralAuction, c: CurrencyId)
    ensures
        spec_auction_total(s.push(a), c) == spec_auction_total(s, c) + (if a.currency_id == c {
            a.amount as int
        } else {
            0
        }),
    decreases s.len(),
{
    if s.len() == 0 {
        assert(s.push(a)[0] == a);
        assert(s.push(a).drop_first() =~= Seq::<CollateralAuction>::empty());
        assert(spec_auction_total(Seq::<CollateralAuction>::empty(), c) == 0);
        assert(spec_auction_total(s, c) == 0);
    } else {
        assert(s.push(a)[0] == s[0]);
        assert(s.push(a).drop_first() =~= s.drop_first().push(a));
        lemma_auction_total_push(s.drop_first(), a, c);
    }
}

proof fn lemma_find_auction_remove(s: Seq<CollateralAuction>, i: int, id: AuctionId, id2: AuctionId)
    requires
        0 <= i < s.len(),
        s[i].id == id,
        forall|j: int| 0 <= j < s.len() && j != i ==> (#[trigger] s[j]).id != id,
    ensures
        spec_find_auction(s.remove(i), id) is None,
        id2 != id ==> spec_find_auction(s.remove(i), id2) == spec_find_auction(s, id2),
    decreases i,
{
    if i == 0 {
        assert(s.remove(0) =~= s.drop_first());
        assert(forall|j: int|
            0 <= j < s.drop_first().len() ==> (#[trigger] s.drop_first()[j]) == s[j + 1]);
        lemma_find_auction_none(s.drop_first(), id);
    } else {
        assert(s.remove(i)[0] == s[0]);
        assert(s.remove(i).drop_first() =~= s.drop_first().remove(i - 1));
        assert(forall|j: int|
            0 <= j < s.drop_first().len() ==> (#[trigger] s.drop_first()[j]) == s[j + 1]);
        lemma_find_auction_remove(s.drop_first(), i - 1, id, id2);
    }
}

proof fn lemma_find_auction_none(s: Seq<CollateralAuction>, id: AuctionId)
    requires
        forall|j: int| 0 <= j < s.len() ==> (#[trigger] s[j]).id != id,
    ensures
        spec_find_auction(s, id) is None,
    decreases s.len(),
{
    if s.len() > 0 {
        assert(forall|j: int|
            0 <= j < s.drop_first().len() ==> (#[trigger] s.drop_first()[j]) == s[j + 1]);
        lemma_find_auction_none(s.drop_first(), id);
    }
}

proof fn lemma_auction_total_remove(s: Seq<CollateralAuction>, i: int, c: CurrencyId)
    requires
        0 <= i < s.len(),
    ensures
        spec_auction_total(s.remove(i), c) == spec_auction_total(s, c) - (if s[i].currency_id
            == c {
            s[i].amount as int
        } else {
            0
        }),
    decreases i,
{
    if i == 0 {
        assert(s.remove(0) =~= s.drop_first());
    } else {
        assert(s.remove(i)[0] == s[0]);
        assert(s.remove(i).drop_first() =~= s.drop_first().remove(i - 1));
        lemma_auction_total_remove(s.drop_first(), i - 1, c);
    }
}

/// The auction book: pending collateral auctions and the next free
/// identifier.
pub struct MockAuctionManager {
    pub auctions: Vec<CollateralAuction>,
    pub next_id: AuctionId,
}

impl MockAuctionManager {
    /// Identifiers are unique, below `next_id`, and each type's locked
    /// collateral total is representable.
    pub open spec fn wf(self) -> bool {
        &&& forall|i: int, j: int|
            0 <= i < j < self.auctions@.len() ==> (#[trigger] self.auctions@[i]).id != (
            #[trigger] self.auctions@[j]).id
        &&& forall|i: int|
            0 <= i < self.auctions@.len() ==> (#[trigger] self.auctions@[i]).id < self.next_id
        &&& forall|c: CurrencyId| #[trigger] spec_auction_total(self.auctions@, c) <= u128::MAX
    }

    pub fn new() -> (r: Self)
        ensures
            r.wf(),
            r.auctions@ == Seq::<CollateralAuction>::empty(),
            r.next_id == 0,
    {
        let r = MockAuctionManager { auctions: Vec::new(), next_id: 0 };
        proof {
            assert(forall|c: CurrencyId| #[trigger] spec_auction_total(r.auctions@, c) == 0);
        }
        r
    }

    /// Record a new collateral auction with the next identifier.
    pub fn new_collateral_auction(
        &mut self,
        refund_recipient: AccountId,
        currency_id: CurrencyId,
        amount: Balance,
        target: Balance,
    ) -> (r: Result<AuctionId, Error>)
        requires
            old(self).wf(),
        ensures
            final(self).wf(),
            match r {
                Ok(id) => {
                    &&& old(self).next_id < AuctionId::MAX
                    &&& spec_auction_total(old(self).auctions@, currency_id) + amount
                        <= u128::MAX
                    &&& id == old(self).next_id
                    &&& final(self).next_id == old(self).next_id + 1
                    &&& final(self).auctions@ == old(self).auctions@.push(
                        (CollateralAuction {
                            id: old(self).next_id,
                            refund_recipient,
                            currency_id,
                            amount,
                            target,
                        }),
                    )
                },
                Err(e) => {
                    &&& e == Error::ArithmeticOverflow
                    &&& *final(self) == *old(self)
                    &&& (old(self).next_id == AuctionId::MAX || spec_auction_total(
                        old(self).auctions@,
                        currency_id,
                    ) + amount > u128::MAX)
                },
            },
    {
        if self.next_id == AuctionId::MAX {
            return Err(Error::ArithmeticOverflow);
        }
        let total = self.get_total_collateral_in_auction(currency_id);
        if amount > u128::MAX - total {
            return Err(Error::ArithmeticOverflow);
        }
        let a = CollateralAuction {
            id: self.next_id,
            refund_recipient,
            currency_id,
            amount,
            target,
        };
        let ghost s = self.auctions@;
        self.auctions.push(a);
        self.next_id = self.next_id + 1;
        proof {
            assert forall|c: CurrencyId|
                #[trigger] spec_auction_total(self.auctions@, c) <= u128::MAX by {
                lemma_auction_total_push(s, a, c);
                lemma_auction_total_nonneg(s, c);
            }
        }
        Ok(a.id)
    }

    /// The pending auction with this identifier, if any.
    pub fn collateral_auctions(&self, id: AuctionId) -> (r: Option<CollateralAuction>)
        ensures
            r == spec_find_auction(self.auctions@, id),
    {
        let ghost s = self.auctions@;
        proof {
            assert(s.skip(0) =~= s);
        }
        let n = self.auctions.len();
        for i in 0..n
            invariant
                n == self.auctions.len(),
                s == self.auctions@,
                spec_find_auction(s, id) == spec_find_auction(s.skip(i as int), id),
        {
            proof {
                lemma_find_auction_skip_unfold(s, i as int, id);
            }
            let a = &self.auctions[i];
            if a.id == id {
                return Some(*a);
            }
        }
        proof {
            assert(s.skip(n as int) =~= Seq::<CollateralAuction>::empty());
        }
        None
    }

    /// Total collateral of type `c` locked in pending auctions.
    pub fn get_total_collateral_in_auction(&self, c: CurrencyId) -> (r: Balance)
        requires
            self.wf(),
        ensures
            r == spec_auction_total(self.auctions@, c),
    {
        let ghost s = self.auctions@;
        proof {
            assert(s.skip(0) =~= s);
        }
        let mut acc: u128 = 0;
        let n = self.auctions.len();
        #[verifier::loop_isolation(false)]
        for i in 0..n
            invariant
                acc + spec_auction_total(s.skip(i as int), c) == spec_auction_total(s, c),
        {
            proof {
                lemma_auction_total_skip_unfold(s, i as int, c);
                lemma_auction_total_nonneg(s.skip(i as int + 1), c);
            }
            let a = &self.auctions[i];
            if a.currency_id == c {
                acc = acc + a.amount;
            }
        }
        proof {
            assert(s.skip(n as int) =~= Seq::<CollateralAuction>::empty());
        }
        acc
    }

    /// Withdraw a pending auction from the book, returning its record;
    /// cancelling an unknown identifier changes nothing.
    pub fn cancel_auction(&mut self, id: AuctionId) -> (r: Option<CollateralAuction>)
        requires
            old(self).wf(),
        ensures
            final(self).wf(),
            final(self).next_id == old(self).next_id,
            match r {
                None => {
                    &&& *final(self) == *old(self)
                    &&& spec_find_auction(old(self).auctions@, id) is None
                },
                Some(a) => {
                    &&& spec_find_auction(old(self).auctions@, id) == Some(a)
                    &&& spec_find_auction(final(self).auctions@, id) is None
                    &&& forall|id2: AuctionId|
                        id2 != id ==> #[trigger] spec_find_auction(final(self).auctions@, id2)
                            == spec_find_auction(old(self).auctions@, id2)
                    &&& forall|c: CurrencyId|
                        #[trigger] spec_auction_total(final(self).auctions@, c)
                            == spec_auction_total(old(self).auctions@, c) - (
                        if a.currency_id == c {
                            a.amount as int
                        } else {
                            0
                        })
                },
            },
    {
        self.take_auction(id)
    }

    /// Remove and return the pending auction with this identifier.
    /// Returns `None`, changing nothing, when no such auction exists,
    /// so a completion callback delivered twice is a no-op the second
    /// time.
    pub(crate) fn take_auction(&mut self, id: AuctionId) -> (r: Option<CollateralAuction>)
        requires
            old(self).wf(),
        ensures
            final(self).wf(),
            final(self).next_id == old(self).next_id,
            match r {
                None => {
                    &&& *final(self) == *old(self)
                    &&& spec_find_auction(old(self).auctions@, id) is None
                },
                Some(a) => {
                    &&& spec_find_auction(old(self).auctions@, id) == Some(a)
                    &&& spec_find_auction(final(self).auctions@, id) is None
                    &&& forall|id2: AuctionId|
                        id2 != id ==> #[trigger] spec_find_auction(final(self).auctions@, id2)
                            == spec_find_auction(old(self).auctions@, id2)
                    &&& forall|c: CurrencyId|
                        #[trigger] spec_auction_total(final(self).auctions@, c)
                            == spec_auction_total(old(self).auctions@, c) - (
                        if a.currency_id == c {
                            a.amount as int
                        } else {
                            0
                        })
                },
            },
    {
        let ghost s = self.auctions@;
        proof {
            assert(s.skip(0) =~= s);
        }
        let n = self.auctions.len();
        #[verifier::loop_isolation(false)]
        for i in 0..n
            invariant
                *self == *old(self),
                spec_find_auction(s, id) == spec_find_auction(s.skip(i as int), id),
                forall|j: int| 0 <= j < i ==> (#[trigger] s[j]).id != id,
        {
            proof {
                lemma_find_auction_skip_unfold(s, i as int, id);
            }
            let hit = self.auctions[i].id == id;
            if hit {
                let a = self.auctions.remove(i);
                proof {
                    assert(forall|j: int|
                        0 <= j < s.len() && j != i ==> (#[trigger] s[j]).id != id);
                    assert forall|id2: AuctionId|
                        id2 != id implies #[trigger] spec_find_auction(self.auctions@, id2)
                        == spec_find_auction(s, id2) by {
                        lemma_find_auction_remove(s, i as int, id, id2);
                    }
                    lemma_find_auction_remove(s, i as int, id, id);
                    assert forall|c: CurrencyId|
                        #[trigger] spec_auction_total(self.auctions@, c) == spec_auction_total(
                        s,
                        c,
                    ) - (if a.currency_id == c {
                        a.amount as int
                    } else {
                        0
                    }) by {
                        lemma_auction_total_remove(s, i as int, c);
                    }
                    assert forall|c: CurrencyId|
                        #[trigger] spec_auction_total(self.auctions@, c) <= u128::MAX by {
                        lemma_auction_total_nonneg(self.auctions@, c);
                        lemma_auction_total_remove(s, i as int, c);
                    }
                    assert(forall|j: int|
                        0 <= j < self.auctions@.len() ==> (#[trigger] self.auctions@[j]) == (
                        if j < i {
                            s[j]
                        } else {
                            s[j + 1]
                        }));
                }
                return Some(a);
            }
        }
        proof {
            assert(s.skip(n as int) =~= Seq::<CollateralAuction>::empty());
            lemma_find_auction_none(s, id);
        }
        None
    }
}

} // verus!
