//! DTag auctions: an auction of a DTag with its bids, kept by bidder address in
//! ascending order as the contract storage iterates them.
use vstd::prelude::*;
use vstd::string::*;
use crate::coins::{Coin, CoinV, coins_view, clone_coins};
use crate::text::{seq_lt, compare_str, str_eq, lemma_seq_lt_irreflexive, lemma_seq_lt_transitive, lemma_seq_lt_total};

verus! {

/// The errors of DTag auctions.
#[derive(Debug, PartialEq, Eq)]
pub enum ContractError {
    AuctionNotFound {},
    AlreadyExistentAuction { creator: String },
    ExpiredAuction {},
    AlreadyActivatedAuction {},
    StillInClaimingPeriodAuctionDTag {},
    InvalidAuctionCreator { user: String, creator: String },
    BidNotFoundForUser { user: String },
    UnknownDTagTransferStatus { status: String },
    MinimumBidAmountNotSatisfied { min_amount: u128 },
    MaxParticipantsNumberReached { max_participants: u64 },
    BidNotFound { bidder: String },
}

/// The DTag of the contract.
pub struct ContractDTag(pub String);

/// The answer of a user to a DTag transfer request.
#[derive(Debug, PartialEq, Eq)]
pub enum DtagTransferStatus {
    Accepted,
    Refused,
}

impl DtagTransferStatus {
    /// Reads a transfer status from its name.
    pub fn from_str(s: &str) -> (r: Result<DtagTransferStatus, ContractError>)
        ensures
            s@ == "dtag_transfer_accept"@ ==> r == Ok::<DtagTransferStatus, ContractError>(DtagTransferStatus::Accepted),
            s@ == "dtag_transfer_refuse"@ ==> r == Ok::<DtagTransferStatus, ContractError>(DtagTransferStatus::Refused),
            s@ != "dtag_transfer_accept"@ && s@ != "dtag_transfer_refuse"@ ==>
                (r matches Err(ContractError::UnknownDTagTransferStatus { status }) && status@ == s@),
    {
        proof {
            reveal_strlit("dtag_transfer_accept");
            reveal_strlit("dtag_transfer_refuse");
            assert("dtag_transfer_accept"@[14] != "dtag_transfer_refuse"@[14]);
        }
        if str_eq(s, "dtag_transfer_accept") {
            Ok(DtagTransferStatus::Accepted)
        } else if str_eq(s, "dtag_transfer_refuse") {
            Ok(DtagTransferStatus::Refused)
        } else {
            Err(ContractError::UnknownDTagTransferStatus { status: String::from_str(s) })
        }
    }
}

/// An auction of a DTag. Times are in nanoseconds.
#[derive(Debug, PartialEq, Eq)]
pub struct Auction {
    pub dtag: String,
    pub starting_price: u128,
    pub max_participants: u64,
    pub start_time: Option<u64>,
    pub end_time: Option<u64>,
    pub claim_time: Option<u64>,
    pub creator: String,
}

/// The length of an auction: two days, in nanoseconds.
pub const AUCTION_LENGTH_NANOS: u64 = 172_800_000_000_000u64;

/// The claim period that follows an auction: one day, in nanoseconds.
pub const CLAIM_PERIOD_NANOS: u64 = 86_400_000_000_000u64;

impl Auction {
    /// Creates an auction.
    pub fn new(dtag: String, starting_price: u128, max_participants: u64, start_time: Option<u64>,
        end_time: Option<u64>, claim_time: Option<u64>, creator: String) -> (a: Auction)
        ensures
            a == (Auction { dtag, starting_price, max_participants, start_time, end_time, claim_time, creator }),
    {
        Auction { dtag, starting_price, max_participants, start_time, end_time, claim_time, creator }
    }

    /// A copy of this auction.
    pub fn duplicate(&self) -> (a: Auction)
        ensures
            a == *self,
    {
        Auction {
            dtag: self.dtag.clone(),
            starting_price: self.starting_price,
            max_participants: self.max_participants,
            start_time: self.start_time,
            end_time: self.end_time,
            claim_time: self.claim_time,
            creator: self.creator.clone(),
        }
    }

    /// Starts the auction at `time`; it ends two days later.
    pub fn activate(&mut self, time: u64)
        requires
            time as int + AUCTION_LENGTH_NANOS <= u64::MAX,
        ensures
            *final(self) == (Auction { start_time: Some(time), end_time: Some((time + AUCTION_LENGTH_NANOS) as u64), ..*old(self) }),
    {
        self.start_time = Some(time);
        self.end_time = Some(time + AUCTION_LENGTH_NANOS);
    }

    /// Starts the period in which the winner claims the DTag, right after the
    /// end of the auction.
    pub fn start_claim_time(&mut self)
        requires
            old(self).end_time is Some,
            old(self).end_time->Some_0 as int + CLAIM_PERIOD_NANOS <= u64::MAX,
        ensures
            *final(self) == (Auction { claim_time: Some((old(self).end_time->Some_0 + CLAIM_PERIOD_NANOS) as u64), ..*old(self) }),
    {
        let end = match self.end_time { Some(e) => e, None => 0 };
        self.claim_time = Some(end + CLAIM_PERIOD_NANOS);
    }
}

/// A bid: the bidder and the coins offered.
#[derive(Debug, PartialEq, Eq)]
pub struct Bid {
    pub bidder: String,
    pub coins: Vec<Coin>,
}

/// A bid as bidder and coins.
pub type BidV = (Seq<char>, Seq<CoinV>);

impl View for Bid {
    type V = BidV;

    open spec fn view(&self) -> BidV {
        (self.bidder@, coins_view(self.coins@))
    }
}

/// The bids as values.
pub open spec fn bids_view(b: Seq<Bid>) -> Seq<BidV> {
    b.map_values(|x: Bid| x@)
}

/// The bids are sorted by bidder and no bidder occurs twice.
pub open spec fn sorted_bids(b: Seq<BidV>) -> bool {
    forall|i: int, j: int| 0 <= i < j < b.len() ==> seq_lt((#[trigger] b[i]).0, (#[trigger] b[j]).0)
}

/// Every bid offers at least one coin.
pub open spec fn bids_nonempty(b: Seq<BidV>) -> bool {
    forall|i: int| 0 <= i < b.len() ==> (#[trigger] b[i]).1.len() > 0
}

/// The bids of an auction, by bidder.
pub struct Bids {
    pub entries: Vec<Bid>,
}

impl Bids {
    /// The bids are sorted by bidder, each bidder once.
    pub open spec fn wf(&self) -> bool {
        sorted_bids(bids_view(self.entries@))
    }

    /// The bids as values.
    pub open spec fn view_bids(&self) -> Seq<BidV> {
        bids_view(self.entries@)
    }
}

/// The bids after putting `e`: the bids of other bidders stay, the bid of the
/// bidder of `e`, if any, is replaced by `e`.
pub open spec fn put_result(old: Seq<BidV>, new: Seq<BidV>, e: BidV) -> bool {
    &&& sorted_bids(new)
    &&& forall|x: BidV| new.contains(x) <==> (old.contains(x) && x.0 != e.0) || x == e
}

/// The bids after removing the bid of `user`.
pub open spec fn remove_result(old: Seq<BidV>, new: Seq<BidV>, user: Seq<char>) -> bool {
    &&& sorted_bids(new)
    &&& forall|x: BidV| new.contains(x) <==> old.contains(x) && x.0 != user
}

/// The index of the bid of `user`, if there is one.
pub open spec fn bid_index(b: Seq<BidV>, user: Seq<char>, i: Option<usize>) -> bool {
    match i {
        Some(k) => k < b.len() && b[k as int].0 == user,
        None => forall|q: int| 0 <= q < b.len() ==> (#[trigger] b[q]).0 != user,
    }
}

impl Bids {
    /// The index of the bid of `user`, if there is one.
    pub fn find(&self, user: &String) -> (r: Option<usize>)
        ensures
            bid_index(self.view_bids(), user@, r),
    {
        let ghost bv = self.view_bids();
        let mut i: usize = 0;
        while i < self.entries.len()
            invariant
                i <= self.entries@.len(),
                bv == bids_view(self.entries@),
                forall|q: int| 0 <= q < i ==> (#[trigger] bv[q]).0 != user@,
            decreases self.entries.len() - i,
        {
            if self.entries[i].bidder == *user {
                return Some(i);
            }
            i = i + 1;
        }
        None
    }

    /// Puts the bid of `bidder` at its place, replacing an earlier bid of the
    /// same bidder.
    pub fn put(&mut self, bidder: String, coins: Vec<Coin>)
        requires
            old(self).wf(),
        ensures
            final(self).wf(),
            put_result(old(self).view_bids(), final(self).view_bids(), (bidder@, coins_view(coins@))),
    {
        let ghost before = self.view_bids();
        let ghost ev: BidV = (bidder@, coins_view(coins@));
        let mut i: usize = 0;
        while i < self.entries.len() && compare_str(self.entries[i].bidder.as_str(), bidder.as_str()) < 0
            invariant
                i <= self.entries@.len(),
                before == bids_view(self.entries@),
                forall|q: int| 0 <= q < i ==> seq_lt((#[trigger] before[q]).0, bidder@),
            decreases self.entries.len() - i,
        {
            i = i + 1;
        }
        let entry = Bid { bidder, coins };
        assert(entry@ == ev);
        if i < self.entries.len() && str_eq(self.entries[i].bidder.as_str(), entry.bidder.as_str()) {
            let _old_entry = self.entries.remove(i);
            self.entries.insert(i, entry);
            let ghost after = self.view_bids();
            proof {
                assert(after =~= before.update(i as int, ev));
                assert(sorted_bids(after)) by {
                    assert forall|a: int, b: int| 0 <= a < b < after.len() implies seq_lt((#[trigger] after[a]).0, (#[trigger] after[b]).0) by {
                        assert(seq_lt(before[a].0, before[b].0));
                    }
                }
                assert forall|x: BidV| after.contains(x) <==> (before.contains(x) && x.0 != ev.0) || x == ev by {
                    if after.contains(x) {
                        let j = choose|j: int| 0 <= j < after.len() && after[j] == x;
                        if j != i {
                            assert(before[j] == x);
                            if j < i {
                                assert(seq_lt(before[j].0, before[i as int].0));
                                lemma_seq_lt_irreflexive(before[i as int].0);
                            } else {
                                assert(seq_lt(before[i as int].0, before[j].0));
                                lemma_seq_lt_irreflexive(before[j].0);
                            }
                        }
                    }
                    if before.contains(x) && x.0 != ev.0 {
                        let j = choose|j: int| 0 <= j < before.len() && before[j] == x;
                        assert(j != i);
                        assert(after[j] == x);
                    }
                    if x == ev {
                        assert(after[i as int] == x);
                    }
                }
            }
        } else {
            proof {
                if i < before.len() {
                    lemma_seq_lt_total(before[i as int].0, ev.0);
                }
            }
            self.entries.insert(i, entry);
            let ghost after = self.view_bids();
            proof {
                assert(after =~= before.insert(i as int, ev));
                assert forall|q: int| 0 <= q < before.len() implies (#[trigger] before[q]).0 != ev.0 by {
                    if q < i {
                        lemma_seq_lt_irreflexive(ev.0);
                    } else {
                        if q > i {
                            assert(seq_lt(before[i as int].0, before[q].0));
                            lemma_seq_lt_transitive(ev.0, before[i as int].0, before[q].0);
                        }
                        lemma_seq_lt_irreflexive(ev.0);
                    }
                }
                assert(sorted_bids(after)) by {
                    assert forall|a: int, b: int| 0 <= a < b < after.len() implies seq_lt((#[trigger] after[a]).0, (#[trigger] after[b]).0) by {
                        if b < i {
                            assert(seq_lt(before[a].0, before[b].0));
                        } else if b == i {
                            assert(after[a] == before[a]);
                        } else if a == i {
                            assert(after[b] == before[b - 1]);
                            if b - 1 > i {
                                assert(seq_lt(before[i as int].0, before[b - 1].0));
                                lemma_seq_lt_transitive(ev.0, before[i as int].0, before[b - 1].0);
                            }
                        } else if a < i {
                            assert(seq_lt(before[a].0, before[b - 1].0));
                        } else {
                            assert(seq_lt(before[a - 1].0, before[b - 1].0));
                        }
                    }
                }
                assert forall|x: BidV| after.contains(x) <==> (before.contains(x) && x.0 != ev.0) || x == ev by {
                    if after.contains(x) {
                        let j = choose|j: int| 0 <= j < after.len() && after[j] == x;
                        if j < i {
                            assert(before[j] == x);
                        } else if j > i {
                            assert(before[j - 1] == x);
                        }
                    }
                    if before.contains(x) && x.0 != ev.0 {
                        let j = choose|j: int| 0 <= j < before.len() && before[j] == x;
                        if j < i { assert(after[j] == x); } else { assert(after[j + 1] == x); }
                    }
                    if x == ev {
                        assert(after[i as int] == x);
                    }
                }
            }
        }
    }

    /// Removes the bid of `user`, if there is one.
    pub fn remove(&mut self, user: &String)
        requires
            old(self).wf(),
        ensures
            final(self).wf(),
            remove_result(old(self).view_bids(), final(self).view_bids(), user@),
    {
        let ghost before = self.view_bids();
        match self.find(user) {
            None => {
                proof {
                    assert forall|x: BidV| before.contains(x) implies x.0 != user@ by {
                        let j = choose|j: int| 0 <= j < before.len() && before[j] == x;
                    }
                }
            },
            Some(i) => {
                self.entries.remove(i);
                let ghost after = self.view_bids();
                proof {
                    assert(after =~= before.remove(i as int));
                    assert(sorted_bids(after)) by {
                        assert forall|a: int, b: int| 0 <= a < b < after.len() implies seq_lt((#[trigger] after[a]).0, (#[trigger] after[b]).0) by {
                            if b < i {
                                assert(seq_lt(before[a].0, before[b].0));
                            } else if a < i {
                                assert(seq_lt(before[a].0, before[b + 1].0));
                            } else {
                                assert(seq_lt(before[a + 1].0, before[b + 1].0));
                            }
                        }
                    }
                    assert forall|x: BidV| after.contains(x) <==> before.contains(x) && x.0 != user@ by {
                        if after.contains(x) {
                            let j = choose|j: int| 0 <= j < after.len() && after[j] == x;
                            if j < i {
                                assert(before[j] == x);
                                assert(seq_lt(before[j].0, before[i as int].0));
                                lemma_seq_lt_irreflexive(before[i as int].0);
                            } else {
                                assert(before[j + 1] == x);
                                assert(seq_lt(before[i as int].0, before[j + 1].0));
                                lemma_seq_lt_irreflexive(before[i as int].0);
                            }
                        }
                        if before.contains(x) && x.0 != user@ {
                            let j = choose|j: int| 0 <= j < before.len() && before[j] == x;
                            assert(j != i);
                            if j < i { assert(after[j] == x); } else { assert(after[j - 1] == x); }
                        }
                    }
                }
            },
        }
    }
}

} // verus!

verus! {

/// The amount of the first coin of a bid.
pub open spec fn first_amount(b: BidV) -> u128 {
    b.1[0].1
}

/// `k` is the last bid with the highest first amount.
pub open spec fn is_best_index(b: Seq<BidV>, k: int) -> bool {
    &&& 0 <= k < b.len()
    &&& forall|j: int| 0 <= j < b.len() ==> first_amount(#[trigger] b[j]) <= first_amount(b[k])
    &&& forall|j: int| k < j < b.len() ==> first_amount(#[trigger] b[j]) < first_amount(b[k])
}

/// The best bid: the last of the highest bids in the order of the bidders, or
/// an empty bidder with a zero coin when there is no bid.
pub open spec fn best_bid(b: Seq<BidV>, r: (String, Vec<Coin>)) -> bool {
    if b.len() == 0 {
        r.0@ == Seq::<char>::empty() && coins_view(r.1@) == seq![(Seq::<char>::empty(), 0u128)]
    } else {
        exists|k: int| is_best_index(b, k) && (r.0@, coins_view(r.1@)) == b[k]
    }
}

/// The answer to an auction query: the auction with its bids.
pub struct AuctionResponse {
    pub auction: Auction,
    pub bids: Vec<(String, Vec<Coin>)>,
}

impl Auction {
    /// Puts the bid of `user`, replacing an earlier one.
    pub fn add_bid(&self, bids: &mut Bids, user: &String, bid: Vec<Coin>)
        requires
            old(bids).wf(),
        ensures
            final(bids).wf(),
            put_result(old(bids).view_bids(), final(bids).view_bids(), (user@, coins_view(bid@))),
    {
        bids.put(user.clone(), bid);
    }

    /// Removes the bid of `user`, if there is one.
    pub fn remove_bid(&self, bids: &mut Bids, user: &String)
        requires
            old(bids).wf(),
        ensures
            final(bids).wf(),
            remove_result(old(bids).view_bids(), final(bids).view_bids(), user@),
    {
        bids.remove(user);
    }

    /// Raises the bid of `user` to `bid`, which must offer more than the
    /// current one in its first coin; returns the new bid.
    pub fn update_bid(&self, bids: &mut Bids, user: &String, bid: Vec<Coin>) -> (r: Result<Vec<Coin>, ContractError>)
        requires
            old(bids).wf(),
            bids_nonempty(old(bids).view_bids()),
            bid@.len() > 0,
        ensures
            final(bids).wf(),
            match r {
                Ok(b) => coins_view(b@) == coins_view(bid@)
                    && exists|i: int| 0 <= i < old(bids).view_bids().len() && (#[trigger] old(bids).view_bids()[i]).0 == user@
                        && first_amount(old(bids).view_bids()[i]) < bid@[0].amount
                    && put_result(old(bids).view_bids(), final(bids).view_bids(), (user@, coins_view(bid@))),
                Err(ContractError::BidNotFound { bidder }) => bidder == *user
                    && (forall|i: int| 0 <= i < old(bids).view_bids().len() ==> (#[trigger] old(bids).view_bids()[i]).0 != user@)
                    && *final(bids) == *old(bids),
                Err(ContractError::MinimumBidAmountNotSatisfied { min_amount }) =>
                    exists|i: int| 0 <= i < old(bids).view_bids().len() && (#[trigger] old(bids).view_bids()[i]).0 == user@
                        && first_amount(old(bids).view_bids()[i]) == min_amount && min_amount >= bid@[0].amount
                    && *final(bids) == *old(bids),
                _ => false,
            },
    {
        let ghost bv = bids.view_bids();
        match bids.find(user) {
            None => Err(ContractError::BidNotFound { bidder: user.clone() }),
            Some(i) => {
                assert(bv[i as int].1.len() > 0);
                let last = bids.entries[i].coins[0].amount;
                assert(last == first_amount(bv[i as int]));
                if last >= bid[0].amount {
                    return Err(ContractError::MinimumBidAmountNotSatisfied { min_amount: last });
                }
                let kept = clone_coins(bid.as_slice());
                bids.put(user.clone(), bid);
                Ok(kept)
            },
        }
    }

    /// The number of bids.
    pub fn count_bids(&self, bids: &Bids) -> (r: u64)
        requires
            bids.entries@.len() <= u64::MAX,
        ensures
            r == bids.entries@.len(),
    {
        bids.entries.len() as u64
    }

    /// The best bid: the last of the highest bids in the order of the
    /// bidders, or an empty bidder with a zero coin when there is none.
    pub fn get_best_bid(&self, bids: &Bids) -> (r: (String, Vec<Coin>))
        requires
            bids_nonempty(bids.view_bids()),
        ensures
            best_bid(bids.view_bids(), r),
    {
        let ghost bv = bids.view_bids();
        if bids.entries.len() == 0 {
            let r = (String::new(), vec![Coin { denom: String::new(), amount: 0 }]);
            proof { assert(coins_view(r.1@) =~= seq![(Seq::<char>::empty(), 0u128)]); }
            return r;
        }
        let mut k: usize = 0;
        let mut i: usize = 1;
        assert(bv[0].1.len() > 0);
        while i < bids.entries.len()
            invariant
                bv == bids.view_bids(),
                bids_nonempty(bv),
                1 <= i <= bv.len(),
                k < i,
                forall|j: int| 0 <= j < i ==> first_amount(#[trigger] bv[j]) <= first_amount(bv[k as int]),
                forall|j: int| k < j < i ==> first_amount(#[trigger] bv[j]) < first_amount(bv[k as int]),
            decreases bids.entries.len() - i,
        {
            assert(bv[i as int].1.len() > 0);
            assert(bv[k as int].1.len() > 0);
            if bids.entries[i].coins[0].amount >= bids.entries[k].coins[0].amount {
                k = i;
            }
            i = i + 1;
        }
        let r = (bids.entries[k].bidder.clone(), clone_coins(bids.entries[k].coins.as_slice()));
        assert(is_best_index(bv, k as int));
        r
    }

    /// The amount of the first coin of the best bid.
    pub fn get_best_bid_amount(&self, bids: &Bids) -> (r: u128)
        requires
            bids_nonempty(bids.view_bids()),
        ensures
            bids.view_bids().len() == 0 ==> r == 0,
            bids.view_bids().len() > 0 ==> exists|k: int| is_best_index(bids.view_bids(), k) && r == first_amount(bids.view_bids()[k]),
    {
        let (_, coins) = self.get_best_bid(bids);
        assert(coins_view(coins@).len() > 0);
        assert(coins_view(coins@)[0] == coins@[0]@);
        coins[0].amount
    }

    /// Records the offer of `user` on this auction, replacing an earlier one.
    pub fn add_offer(&self, bids: &mut Bids, user: &String, offer: Vec<Coin>)
        requires
            old(bids).wf(),
        ensures
            final(bids).wf(),
            put_result(old(bids).view_bids(), final(bids).view_bids(), (user@, coins_view(offer@))),
    {
        bids.put(user.clone(), offer);
    }

    /// Withdraws the offer of `user`, if there is one.
    pub fn remove_offer(&self, bids: &mut Bids, user: &String)
        requires
            old(bids).wf(),
        ensures
            final(bids).wf(),
            remove_result(old(bids).view_bids(), final(bids).view_bids(), user@),
    {
        bids.remove(user);
    }

    /// The best offer: the last of the highest offers in the order of the
    /// offerers. There must be one.
    pub fn get_best_offer(&self, bids: &Bids) -> (r: (String, Vec<Coin>))
        requires
            bids_nonempty(bids.view_bids()),
            bids.view_bids().len() > 0,
        ensures
            exists|k: int| is_best_index(bids.view_bids(), k) && (r.0@, coins_view(r.1@)) == bids.view_bids()[k],
    {
        self.get_best_bid(bids)
    }

    /// All the bids, in the order of the bidders.
    pub fn get_all_bids(&self, bids: &Bids) -> (r: Vec<(String, Vec<Coin>)>)
        ensures
            r@.len() == bids.entries@.len(),
            forall|i: int| 0 <= i < r@.len() ==> ((#[trigger] r@[i]).0@, coins_view(r@[i].1@)) == bids.view_bids()[i],
    {
        let mut out: Vec<(String, Vec<Coin>)> = Vec::new();
        let mut i: usize = 0;
        while i < bids.entries.len()
            invariant
                i <= bids.entries@.len(),
                out@.len() == i,
                forall|j: int| 0 <= j < i ==> ((#[trigger] out@[j]).0@, coins_view(out@[j].1@)) == bids.view_bids()[j],
            decreases bids.entries.len() - i,
        {
            out.push((bids.entries[i].bidder.clone(), clone_coins(bids.entries[i].coins.as_slice())));
            i = i + 1;
        }
        out
    }
}

} // verus!
