//! The DTag auctioneer contract: users put their DTag on sale; the contract
//! holds the DTag of the running auction, collects the bids and, at the end,
//! pays the creator with the best bid and hands the DTag to its bidder.
use vstd::prelude::*;
use vstd::string::*;
use crate::coins::{Coin, StdError, coins_view, clone_coins};
use crate::chain::{Response, MessageInfo, Env, attrs_view};
use crate::dtag_auctions::{Auction, Bids, BidV, AUCTION_LENGTH_NANOS, CLAIM_PERIOD_NANOS,
    put_result, remove_result, best_bid, bids_nonempty, first_amount, is_best_index};
use crate::text::{str_eq, decimal, u128_to_decimal};

verus! {

/// The errors of the auctioneer.
#[derive(Debug, PartialEq, Eq)]
pub enum ContractError {
    Std(StdError),
    AlreadyExistentAuction {},
    AlreadyClosedAuction {},
    AlreadyActivatedAuction {},
    StillInClaimingProcedureAuctionDTag {},
    StillActiveAuction {},
    AuctionNotFound {},
    AlreadyExistentDtagRequest {},
    InvalidAuctionCreator {},
    OfferNotFound {},
    UnknownDTagTransferStatus {},
    MinimumPriceNotReached {},
    NoPendingAuctionsLeft {},
    MaxParticipantsNumberReached {},
}

/// The DTag of the contract.
pub struct ContractDTag(pub String);

/// Whether an auction runs.
#[derive(Debug, PartialEq, Eq)]
pub enum AuctionStatus {
    Active,
    Inactive,
}

impl AuctionStatus {
    /// The name of the status.
    pub fn to_text(&self) -> (s: &'static str)
        ensures
            s@ == (match *self { AuctionStatus::Active => "Active"@, AuctionStatus::Inactive => "Inactive"@ }),
    {
        match self {
            AuctionStatus::Active => "Active",
            AuctionStatus::Inactive => "Inactive",
        }
    }
}

/// The answer of a user to the request to transfer their DTag.
#[derive(Debug, PartialEq, Eq)]
pub enum DtagTransferStatus {
    Accepted,
    Refused,
}

impl DtagTransferStatus {
    /// Reads a transfer status from the name that the chain gives it.
    pub fn from_str(s: &str) -> (r: Result<DtagTransferStatus, ContractError>)
        ensures
            s@ == "accept_dtag_transfer_request"@ ==> r == Ok::<DtagTransferStatus, ContractError>(DtagTransferStatus::Accepted),
            s@ == "refuse_dtag_transfer_request"@ ==> r == Ok::<DtagTransferStatus, ContractError>(DtagTransferStatus::Refused),
            s@ != "accept_dtag_transfer_request"@ && s@ != "refuse_dtag_transfer_request"@ ==>
                r == Err::<DtagTransferStatus, ContractError>(ContractError::UnknownDTagTransferStatus {}),
    {
        proof {
            reveal_strlit("accept_dtag_transfer_request");
            reveal_strlit("refuse_dtag_transfer_request");
            assert("accept_dtag_transfer_request"@[0] != "refuse_dtag_transfer_request"@[0]);
        }
        if str_eq(s, "accept_dtag_transfer_request") {
            Ok(DtagTransferStatus::Accepted)
        } else if str_eq(s, "refuse_dtag_transfer_request") {
            Ok(DtagTransferStatus::Refused)
        } else {
            Err(ContractError::UnknownDTagTransferStatus {})
        }
    }
}

/// The message that instantiates the contract.
pub struct InstantiateMsg {
    pub contract_dtag: String,
}

/// The messages that users send.
pub enum ExecuteMsg {
    CreateAuction { dtag: String, starting_price: u128, max_participants: u64 },
    MakeOffer {},
    RetreatOffer {},
    CompleteAuction {},
    StartAuction {},
}

/// The messages that the chain sends.
pub enum SudoMsg {
    UpdateDTagAuctionStatus { user: String, transfer_status: String },
}

/// The queries of the contract.
pub enum QueryMsg {
    GetActiveAuction {},
    GetAuctionByUser { user: String },
}

/// The messages that the contract sends to the chain.
#[derive(Debug, PartialEq, Eq)]
pub enum DesmosMsg {
    /// Creates the profile of the contract.
    SaveProfile { dtag: String, creator: String, nickname: Option<String>, bio: Option<String>,
        profile_picture: Option<String>, cover_picture: Option<String> },
    /// Asks `receiver` to transfer their DTag to `sender`.
    RequestDtagTransfer { sender: String, receiver: String },
    /// Pays `amount` to `to_address`.
    BankSend { to_address: String, amount: Vec<Coin> },
}

/// The state of the auctioneer.
pub struct AuctioneerState {
    pub contract_dtag: ContractDTag,
    /// The auctions by creator that wait for, or passed, their DTag transfer.
    pub inactive: Vec<Auction>,
    /// The running auction.
    pub active: Option<Auction>,
    /// The bids on the running auction.
    pub bids: Bids,
}

/// The state is well formed: the bids are sorted and offer coins, the running
/// auction has an end, and each creator has one inactive auction at most.
pub open spec fn state_wf(st: AuctioneerState) -> bool {
    &&& st.bids.wf()
    &&& bids_nonempty(st.bids.view_bids())
    &&& (st.active matches Some(a) ==> a.end_time is Some)
    &&& forall|i: int, j: int| 0 <= i < j < st.inactive@.len() ==> (#[trigger] st.inactive@[i]).creator@ != (#[trigger] st.inactive@[j]).creator@
}

/// The index of the inactive auction of `user`, if there is one.
pub open spec fn auction_index(a: Seq<Auction>, user: Seq<char>, i: Option<usize>) -> bool {
    match i {
        Some(k) => k < a.len() && a[k as int].creator@ == user,
        None => forall|q: int| 0 <= q < a.len() ==> (#[trigger] a[q]).creator@ != user,
    }
}

/// `user` has an inactive auction.
pub open spec fn has_auction(a: Seq<Auction>, user: Seq<char>) -> bool {
    exists|q: int| 0 <= q < a.len() && (#[trigger] a[q]).creator@ == user
}

/// An optional text as characters.
pub open spec fn opt_text(o: Option<String>) -> Option<Seq<char>> {
    match o { Some(s) => Some(s@), None => None }
}

/// The answer to a handler that only records attributes.
pub open spec fn attrs_only(r: Result<Response<DesmosMsg>, ContractError>, attrs: Seq<(Seq<char>, Seq<char>)>) -> bool {
    r matches Ok(resp) && attrs_view(resp.attributes@) == attrs && resp.messages@.len() == 0
}

/// The answer asks `receiver` to transfer their DTag to `sender`.
pub open spec fn requests_transfer(m: DesmosMsg, sender: Seq<char>, receiver: Seq<char>) -> bool {
    m matches DesmosMsg::RequestDtagTransfer { sender: s, receiver: r } && s@ == sender && r@ == receiver
}

impl AuctioneerState {
    /// The index of the inactive auction of `user`, if there is one.
    pub fn find_auction(&self, user: &String) -> (r: Option<usize>)
        ensures
            auction_index(self.inactive@, user@, r),
    {
        let mut i: usize = 0;
        while i < self.inactive.len()
            invariant
                i <= self.inactive@.len(),
                forall|q: int| 0 <= q < i ==> (#[trigger] self.inactive@[q]).creator@ != user@,
            decreases self.inactive.len() - i,
        {
            if self.inactive[i].creator == *user {
                return Some(i);
            }
            i = i + 1;
        }
        None
    }
}

/// Instantiates the contract: the answer creates the profile of the contract
/// with its DTag.
pub fn instantiate(env: &Env, msg: InstantiateMsg) -> (r: (AuctioneerState, Response<DesmosMsg>))
    ensures
        r.0.contract_dtag.0 == msg.contract_dtag && r.0.inactive@.len() == 0 && r.0.active is None
            && r.0.bids.entries@.len() == 0 && state_wf(r.0),
        attrs_view(r.1.attributes@) == seq![("action"@, "save_contract_profile"@), ("dtag"@, msg.contract_dtag@)],
        r.1.messages@.len() == 1,
        r.1.messages@[0] matches DesmosMsg::SaveProfile { dtag, creator, nickname, bio, profile_picture, cover_picture }
            && dtag@ == msg.contract_dtag@ && creator@ == env.contract_address@
            && opt_text(nickname) == Some("DTag auctioneer contract"@)
            && opt_text(bio) == Some("Use me to put your precious DTag on sale to best bidder!"@)
            && profile_picture is None && cover_picture is None,
{
    let mut resp: Response<DesmosMsg> = Response::new();
    resp.add_message(DesmosMsg::SaveProfile {
        dtag: msg.contract_dtag.clone(),
        creator: env.contract_address.clone(),
        nickname: Some(String::from_str("DTag auctioneer contract")),
        bio: Some(String::from_str("Use me to put your precious DTag on sale to best bidder!")),
        profile_picture: None,
        cover_picture: None,
    });
    resp.add_attribute("action", "save_contract_profile");
    resp.add_attribute("dtag", msg.contract_dtag.as_str());
    proof {
        reveal_strlit("DTag auctioneer contract");
        reveal_strlit("Use me to put your precious DTag on sale to best bidder!");
        assert(attrs_view(resp.attributes@) =~= seq![("action"@, "save_contract_profile"@), ("dtag"@, msg.contract_dtag@)]);
    }
    let st = AuctioneerState {
        contract_dtag: ContractDTag(msg.contract_dtag),
        inactive: Vec::new(),
        active: None,
        bids: Bids { entries: Vec::new() },
    };
    (st, resp)
}

} // verus!

verus! {

/// The running auction, when `sender` did not create it, has a claim time.
pub open spec fn claim_known(st: AuctioneerState, sender: Seq<char>) -> bool {
    match st.active {
        Some(a) => a.creator@ != sender ==> a.claim_time is Some,
        None => true,
    }
}

/// What applying the answer of `user` to a DTag transfer request does.
pub open spec fn status_post(old: AuctioneerState, new: AuctioneerState, env: Env, user: Seq<char>, status: DtagTransferStatus,
    r: Result<Response<DesmosMsg>, ContractError>) -> bool {
    if !has_auction(old.inactive@, user) {
        r == Err::<Response<DesmosMsg>, ContractError>(ContractError::AuctionNotFound {}) && new == old
    } else {
        let k = choose|k: int| 0 <= k < old.inactive@.len() && (#[trigger] old.inactive@[k]).creator@ == user;
        let a = old.inactive@[k];
        match status {
            DtagTransferStatus::Accepted => {
                &&& new.active == Some(Auction { start_time: Some(env.block_time),
                    end_time: Some((env.block_time + AUCTION_LENGTH_NANOS) as u64), ..a })
                &&& new.inactive == old.inactive && new.bids == old.bids
                &&& new.contract_dtag == old.contract_dtag
                &&& attrs_only(r, seq![("action"@, "update_dtag_auction_status"@), ("status"@, "Activated"@), ("user"@, user)])
            },
            DtagTransferStatus::Refused => {
                &&& new.inactive@ == old.inactive@.remove(k)
                &&& new.active == old.active && new.bids == old.bids
                &&& new.contract_dtag == old.contract_dtag
                &&& attrs_only(r, seq![("action"@, "update_dtag_auction_status"@), ("status"@, "Deleted"@), ("user"@, user)])
            },
        }
    }
}

/// What creating an auction does.
pub open spec fn create_auction_post(old: AuctioneerState, new: AuctioneerState, env: Env, creator: String, dtag: String, starting_price: u128, max_participants: u64, r: Result<Response<DesmosMsg>, ContractError>) -> bool {
    if has_auction(old.inactive@, creator@) {
        r == Err::<Response<DesmosMsg>, ContractError>(ContractError::AlreadyExistentAuction {}) && new == old
    } else {
        &&& new.inactive@ == old.inactive@.push(Auction { dtag, starting_price, max_participants,
            start_time: None, end_time: None, claim_time: None, creator })
        &&& new.active == old.active && new.bids == old.bids
        &&& new.contract_dtag == old.contract_dtag
        &&& r matches Ok(resp)
        &&& attrs_view(resp.attributes@) == seq![("action"@, "create_auction"@), ("creator"@, creator@), ("dtag"@, dtag@)]
        &&& if old.active is None {
            resp.messages@.len() == 1 && requests_transfer(resp.messages@[0], env.contract_address@, creator@)
        } else {
            resp.messages@.len() == 0
        }
    }
}

/// What bidding does.
pub open spec fn make_offer_post(old: AuctioneerState, new: AuctioneerState, env: Env, info: MessageInfo, r: Result<Response<DesmosMsg>, ContractError>) -> bool {
    ({
        let bids = old.bids.view_bids();
        let amount = info.funds@[0].amount;
        match old.active {
            None => r == Err::<Response<DesmosMsg>, ContractError>(ContractError::AuctionNotFound {}) && new == old,
            Some(a) => if env.block_time > a.end_time->Some_0 {
                r == Err::<Response<DesmosMsg>, ContractError>(ContractError::AlreadyClosedAuction {}) && new == old
            } else if bids.len() >= a.max_participants {
                r == Err::<Response<DesmosMsg>, ContractError>(ContractError::MaxParticipantsNumberReached {}) && new == old
            } else if (bids.len() == 0 && amount < a.starting_price)
                || (bids.len() > 0 && exists|k: int| is_best_index(bids, k) && amount < first_amount(bids[k])) {
                r == Err::<Response<DesmosMsg>, ContractError>(ContractError::MinimumPriceNotReached {}) && new == old
            } else {
                &&& put_result(bids, new.bids.view_bids(), (info.sender@, coins_view(info.funds@)))
                &&& new.active == old.active && new.inactive == old.inactive
                &&& new.contract_dtag == old.contract_dtag
                &&& attrs_only(r, seq![("action"@, "make_bid"@), ("user"@, info.sender@),
                    ("bid_amount"@, decimal(amount as nat)), ("dtag"@, a.dtag@)])
            },
        }
    })
}

/// What withdrawing a bid does.
pub open spec fn retreat_offer_post(old: AuctioneerState, new: AuctioneerState, user: Seq<char>, r: Result<Response<DesmosMsg>, ContractError>) -> bool {
    match old.active {
        None => r == Err::<Response<DesmosMsg>, ContractError>(ContractError::AuctionNotFound {}) && new == old,
        Some(_) => remove_result(old.bids.view_bids(), new.bids.view_bids(), user)
            && new.active == old.active && new.inactive == old.inactive
            && new.contract_dtag == old.contract_dtag
            && attrs_only(r, seq![("action"@, "retreat_offer"@), ("user"@, user)]),
    }
}

/// Closing the running auction at its end time, by its creator, takes its
/// best offer: there must be one.
pub open spec fn offer_at_close(st: AuctioneerState, env: Env, sender: Seq<char>) -> bool {
    st.active matches Some(a) && sender == a.creator@ && a.end_time == Some(env.block_time)
        ==> st.bids.view_bids().len() > 0
}

/// What closing the running auction does.
pub open spec fn complete_auction_post(old: AuctioneerState, new: AuctioneerState, env: Env, sender: Seq<char>, r: Result<Response<DesmosMsg>, ContractError>) -> bool {
    match old.active {
        None => r == Err::<Response<DesmosMsg>, ContractError>(ContractError::AuctionNotFound {}) && new == old,
        Some(a) => if sender != a.creator@ {
            r == Err::<Response<DesmosMsg>, ContractError>(ContractError::InvalidAuctionCreator {}) && new == old
        } else if env.block_time > a.end_time->Some_0 {
            r == Err::<Response<DesmosMsg>, ContractError>(ContractError::AlreadyClosedAuction {}) && new == old
        } else if env.block_time < a.end_time->Some_0 {
            r == Err::<Response<DesmosMsg>, ContractError>(ContractError::StillActiveAuction {}) && new == old
        } else {
            &&& r matches Ok(resp)
            &&& resp.messages@.len() == 2
            &&& resp.messages@[0] matches DesmosMsg::BankSend { to_address, amount }
            &&& to_address@ == a.creator@
            &&& resp.messages@[1] matches DesmosMsg::RequestDtagTransfer { sender: winner, receiver }
            &&& receiver@ == env.contract_address@
            &&& best_bid(old.bids.view_bids(), (winner, amount))
            &&& attrs_view(resp.attributes@) == seq![("action"@, "complete_auction"@), ("user"@, a.creator@),
                ("dtag"@, a.dtag@), ("winner"@, winner@)]
            &&& new.active == Some(Auction { claim_time: Some((a.end_time->Some_0 + CLAIM_PERIOD_NANOS) as u64), ..a })
            &&& forall|q: int| 0 <= q < new.inactive@.len() ==> (#[trigger] new.inactive@[q]).creator@ != a.creator@
            &&& forall|q: int| 0 <= q < old.inactive@.len() && (#[trigger] old.inactive@[q]).creator@ != a.creator@
                ==> new.inactive@.contains(old.inactive@[q])
            &&& new.bids == old.bids && new.contract_dtag == old.contract_dtag
        }
    }
}

/// What asking to start the next auction does.
pub open spec fn start_auction_post(st: AuctioneerState, env: Env, sender: Seq<char>, r: Result<Response<DesmosMsg>, ContractError>) -> bool {
    match st.active {
        None => r matches Err(ContractError::Std(e)) && auction_not_stored(e),
        Some(a) => if a.creator@ == sender {
            r == Err::<Response<DesmosMsg>, ContractError>(ContractError::AlreadyActivatedAuction {})
        } else if env.block_time < a.claim_time->Some_0 {
            r == Err::<Response<DesmosMsg>, ContractError>(ContractError::StillInClaimingProcedureAuctionDTag {})
        } else if !has_auction(st.inactive@, sender) {
            r == Err::<Response<DesmosMsg>, ContractError>(ContractError::AuctionNotFound {})
        } else {
            let k = choose|k: int| 0 <= k < st.inactive@.len() && (#[trigger] st.inactive@[k]).creator@ == sender;
            &&& r matches Ok(resp)
            &&& resp.messages@.len() == 1 && requests_transfer(resp.messages@[0], env.contract_address@, sender)
            &&& attrs_view(resp.attributes@) == seq![("action"@, "start_auction"@), ("user"@, sender),
                ("dtag"@, st.inactive@[k].dtag@)]
        },
    }
}

/// The kind of the storage error that reading a missing auction gives.
pub open spec fn auction_not_stored(e: StdError) -> bool {
    e matches StdError::NotFound { kind } && kind@ == "dtag_auctioneer::state::Auction"@
}

fn auction_not_stored_error() -> (e: StdError)
    ensures
        auction_not_stored(e),
{
    StdError::NotFound { kind: String::from_str("dtag_auctioneer::state::Auction") }
}

impl AuctioneerState {
    /// Creates an inactive auction of the DTag of `creator`; when no auction
    /// runs, the answer asks the creator for their DTag right away.
    pub fn execute_create_auction(&mut self, env: &Env, creator: &String, dtag: String, starting_price: u128,
        max_participants: u64) -> (r: Result<Response<DesmosMsg>, ContractError>)
        requires
            state_wf(*old(self)),
        ensures
            state_wf(*final(self)),
            create_auction_post(*old(self), *final(self), *env, *creator, dtag, starting_price, max_participants, r),

    {
        match self.find_auction(creator) {
            Some(_) => return Err(ContractError::AlreadyExistentAuction {}),
            None => {},
        }
        let mut resp: Response<DesmosMsg> = Response::new();
        resp.add_attribute("action", "create_auction");
        resp.add_attribute("creator", creator.as_str());
        resp.add_attribute("dtag", dtag.as_str());
        proof {
            assert(attrs_view(resp.attributes@) =~= seq![("action"@, "create_auction"@), ("creator"@, creator@), ("dtag"@, dtag@)]);
        }
        let auction = Auction::new(dtag, starting_price, max_participants, None, None, None, creator.clone());
        let ghost before = self.inactive@;
        self.inactive.push(auction);
        proof {
            assert forall|i: int, j: int| 0 <= i < j < self.inactive@.len() implies
                (#[trigger] self.inactive@[i]).creator@ != (#[trigger] self.inactive@[j]).creator@ by {
                if j == before.len() {
                    assert(before[i].creator@ != creator@);
                }
            }
        }
        if self.active.is_none() {
            resp.add_message(DesmosMsg::RequestDtagTransfer { sender: env.contract_address.clone(), receiver: creator.clone() });
        }
        Ok(resp)
    }

    /// Bids the funds of the message on the running auction: the auction must
    /// not be over nor full, and the first coin must reach the starting price,
    /// or the best bid once there are bids.
    pub fn execute_make_offer(&mut self, env: &Env, info: &MessageInfo) -> (r: Result<Response<DesmosMsg>, ContractError>)
        requires
            state_wf(*old(self)),
            info.funds@.len() > 0,
        ensures
            state_wf(*final(self)),
            make_offer_post(*old(self), *final(self), *env, *info, r),

    {
        let ghost bids = self.bids.view_bids();
        let (end, max, price, dtag) = match &self.active {
            None => return Err(ContractError::AuctionNotFound {}),
            Some(a) => (match a.end_time { Some(e) => e, None => 0 }, a.max_participants, a.starting_price, a.dtag.clone()),
        };
        if env.block_time > end {
            return Err(ContractError::AlreadyClosedAuction {});
        }
        let count = self.bids.entries.len();
        if count as u64 >= max {
            return Err(ContractError::MaxParticipantsNumberReached {});
        }
        let amount = info.funds[0].amount;
        if count == 0 && amount < price {
            return Err(ContractError::MinimumPriceNotReached {});
        }
        if count > 0 {
            let last = match &self.active {
                Some(a) => a.get_best_bid_amount(&self.bids),
                None => 0,
            };
            if amount < last {
                return Err(ContractError::MinimumPriceNotReached {});
            }
            proof {
                assert forall|k: int| is_best_index(bids, k) implies !(amount < first_amount(bids[k])) by {
                    let k2 = choose|k2: int| is_best_index(bids, k2) && last == first_amount(bids[k2]);
                    assert(first_amount(bids[k]) <= first_amount(bids[k2]));
                    assert(first_amount(bids[k2]) <= first_amount(bids[k]));
                }
            }
        }
        let ghost before = self.bids.view_bids();
        match &self.active {
            Some(a) => a.add_offer(&mut self.bids, &info.sender, clone_coins(info.funds.as_slice())),
            None => {},
        }
        proof {
            let after = self.bids.view_bids();
            assert forall|i: int| 0 <= i < after.len() implies (#[trigger] after[i]).1.len() > 0 by {
                assert(after.contains(after[i]));
                if after[i] != (info.sender@, coins_view(info.funds@)) {
                    let j = choose|j: int| 0 <= j < before.len() && before[j] == after[i];
                }
            }
        }
        let amount_text = u128_to_decimal(amount);
        let mut resp: Response<DesmosMsg> = Response::new();
        resp.add_attribute("action", "make_bid");
        resp.add_attribute("user", info.sender.as_str());
        resp.add_attribute("bid_amount", amount_text.as_str());
        resp.add_attribute("dtag", dtag.as_str());
        proof {
            assert(attrs_view(resp.attributes@) =~= seq![("action"@, "make_bid"@), ("user"@, info.sender@),
                ("bid_amount"@, decimal(amount as nat)), ("dtag"@, dtag@)]);
        }
        Ok(resp)
    }

    /// Withdraws the bid of `user` from the running auction.
    pub fn execute_retreat_offer(&mut self, user: &String) -> (r: Result<Response<DesmosMsg>, ContractError>)
        requires
            state_wf(*old(self)),
        ensures
            state_wf(*final(self)),
            retreat_offer_post(*old(self), *final(self), user@, r),

    {
        let ghost before = self.bids.view_bids();
        match &self.active {
            None => return Err(ContractError::AuctionNotFound {}),
            Some(a) => a.remove_offer(&mut self.bids, user),
        }
        proof {
            let after = self.bids.view_bids();
            assert forall|i: int| 0 <= i < after.len() implies (#[trigger] after[i]).1.len() > 0 by {
                assert(after.contains(after[i]));
                let j = choose|j: int| 0 <= j < before.len() && before[j] == after[i];
            }
        }
        let mut resp: Response<DesmosMsg> = Response::new();
        resp.add_attribute("action", "retreat_offer");
        resp.add_attribute("user", user.as_str());
        proof {
            assert(attrs_view(resp.attributes@) =~= seq![("action"@, "retreat_offer"@), ("user"@, user@)]);
        }
        Ok(resp)
    }
}

} // verus!

verus! {

/// Removes the inactive auction at `i`, keeping creators unique.
fn remove_inactive(st: &mut AuctioneerState, i: usize)
    requires
        state_wf(*old(st)),
        i < old(st).inactive@.len(),
    ensures
        state_wf(*final(st)),
        final(st).inactive@ == old(st).inactive@.remove(i as int),
        final(st).active == old(st).active && final(st).bids == old(st).bids && final(st).contract_dtag == old(st).contract_dtag,
{
    let ghost before = st.inactive@;
    st.inactive.remove(i);
    proof {
        assert forall|a: int, b: int| 0 <= a < b < st.inactive@.len() implies
            (#[trigger] st.inactive@[a]).creator@ != (#[trigger] st.inactive@[b]).creator@ by {
            if b < i {
                assert(st.inactive@[a] == before[a] && st.inactive@[b] == before[b]);
            } else if a < i {
                assert(st.inactive@[a] == before[a] && st.inactive@[b] == before[b + 1]);
            } else {
                assert(st.inactive@[a] == before[a + 1] && st.inactive@[b] == before[b + 1]);
            }
        }
    }
}

impl AuctioneerState {
    /// Closes the running auction at its end time; only its creator may. The
    /// answer pays the creator with the best bid and asks its bidder to take
    /// the DTag; the claim period starts.
    pub fn execute_complete_auction(&mut self, env: &Env, sender: &String) -> (r: Result<Response<DesmosMsg>, ContractError>)
        requires
            state_wf(*old(self)),
            env.block_time as int + CLAIM_PERIOD_NANOS <= u64::MAX,
            offer_at_close(*old(self), *env, sender@),
        ensures
            state_wf(*final(self)),
            complete_auction_post(*old(self), *final(self), *env, sender@, r),

    {
        let mut auction = match &self.active {
            None => return Err(ContractError::AuctionNotFound {}),
            Some(a) => a.duplicate(),
        };
        if !(*sender == auction.creator) {
            return Err(ContractError::InvalidAuctionCreator {});
        }
        let end = match auction.end_time { Some(e) => e, None => 0 };
        if env.block_time > end {
            return Err(ContractError::AlreadyClosedAuction {});
        }
        if env.block_time < end {
            return Err(ContractError::StillActiveAuction {});
        }
        let (winner, amount) = auction.get_best_offer(&self.bids);
        let mut resp: Response<DesmosMsg> = Response::new();
        resp.add_message(DesmosMsg::BankSend { to_address: auction.creator.clone(), amount });
        resp.add_message(DesmosMsg::RequestDtagTransfer { sender: winner.clone(), receiver: env.contract_address.clone() });
        resp.add_attribute("action", "complete_auction");
        resp.add_attribute("user", auction.creator.as_str());
        resp.add_attribute("dtag", auction.dtag.as_str());
        resp.add_attribute("winner", winner.as_str());
        proof {
            assert(attrs_view(resp.attributes@) =~= seq![("action"@, "complete_auction"@), ("user"@, auction.creator@),
                ("dtag"@, auction.dtag@), ("winner"@, winner@)]);
        }
        let ghost before = self.inactive@;
        match self.find_auction(&auction.creator) {
            Some(i) => {
                remove_inactive(self, i);
                proof {
                    assert forall|q: int| 0 <= q < self.inactive@.len() implies (#[trigger] self.inactive@[q]).creator@ != auction.creator@ by {
                        if q < i {
                            assert(self.inactive@[q] == before[q]);
                        } else {
                            assert(self.inactive@[q] == before[q + 1]);
                        }
                    }
                    assert forall|q: int| 0 <= q < before.len() && (#[trigger] before[q]).creator@ != auction.creator@
                        implies self.inactive@.contains(before[q]) by {
                        if q < i {
                            assert(self.inactive@[q] == before[q]);
                        } else {
                            assert(q != i);
                            assert(self.inactive@[q - 1] == before[q]);
                        }
                    }
                }
            },
            None => {
                proof {
                    assert forall|q: int| 0 <= q < before.len() && (#[trigger] before[q]).creator@ != auction.creator@
                        implies self.inactive@.contains(before[q]) by {
                        assert(self.inactive@[q] == before[q]);
                    }
                }
            },
        }
        auction.start_claim_time();
        self.active = Some(auction);
        Ok(resp)
    }

    /// Applies the answer of `user` to the request for their DTag: an accepted
    /// transfer starts their auction now, a refused one deletes it.
    pub fn update_dtag_auction_status(&mut self, env: &Env, user: &String, status: DtagTransferStatus)
        -> (r: Result<Response<DesmosMsg>, ContractError>)
        requires
            state_wf(*old(self)),
            env.block_time as int + AUCTION_LENGTH_NANOS <= u64::MAX,
        ensures
            state_wf(*final(self)),
            status_post(*old(self), *final(self), *env, user@, status, r),

    {
        let i = match self.find_auction(user) {
            None => return Err(ContractError::AuctionNotFound {}),
            Some(i) => i,
        };
        proof {
            let k = choose|k: int| 0 <= k < old(self).inactive@.len() && (#[trigger] old(self).inactive@[k]).creator@ == user@;
            if k != i {
                if k < i {
                    assert(old(self).inactive@[k].creator@ != old(self).inactive@[i as int].creator@);
                } else {
                    assert(old(self).inactive@[i as int].creator@ != old(self).inactive@[k].creator@);
                }
            }
        }
        let status_text: &str;
        match status {
            DtagTransferStatus::Accepted => {
                let mut auction = self.inactive[i].duplicate();
                auction.activate(env.block_time);
                self.active = Some(auction);
                status_text = "Activated";
            },
            DtagTransferStatus::Refused => {
                remove_inactive(self, i);
                status_text = "Deleted";
            },
        }
        let mut resp: Response<DesmosMsg> = Response::new();
        resp.add_attribute("action", "update_dtag_auction_status");
        resp.add_attribute("status", status_text);
        resp.add_attribute("user", user.as_str());
        proof {
            assert(attrs_view(resp.attributes@) =~= seq![("action"@, "update_dtag_auction_status"@), ("status"@, status_text@), ("user"@, user@)]);
        }
        Ok(resp)
    }

    /// Handles a message of the chain: the answer of a user to a DTag
    /// transfer request.
    pub fn sudo(&mut self, env: &Env, msg: SudoMsg) -> (r: Result<Response<DesmosMsg>, ContractError>)
        requires
            state_wf(*old(self)),
            env.block_time as int + AUCTION_LENGTH_NANOS <= u64::MAX,
        ensures
            state_wf(*final(self)),
            match msg {
                SudoMsg::UpdateDTagAuctionStatus { user, transfer_status } =>
                    if transfer_status@ == "accept_dtag_transfer_request"@ {
                        status_post(*old(self), *final(self), *env, user@, DtagTransferStatus::Accepted, r)
                    } else if transfer_status@ == "refuse_dtag_transfer_request"@ {
                        status_post(*old(self), *final(self), *env, user@, DtagTransferStatus::Refused, r)
                    } else {
                        r == Err::<Response<DesmosMsg>, ContractError>(ContractError::UnknownDTagTransferStatus {}) && *final(self) == *old(self)
                    },
            },
    {
        match msg {
            SudoMsg::UpdateDTagAuctionStatus { user, transfer_status } => {
                let status = match DtagTransferStatus::from_str(transfer_status.as_str()) {
                    Ok(s) => s,
                    Err(e) => return Err(e),
                };
                self.update_dtag_auction_status(env, &user, status)
            },
        }
    }

    /// Asks the sender for their DTag to start their auction next; the sender
    /// must not run the current auction, whose claim period must be over.
    pub fn execute_start_auction(&self, env: &Env, sender: &String) -> (r: Result<Response<DesmosMsg>, ContractError>)
        requires
            state_wf(*self),
            claim_known(*self, sender@),
        ensures
            start_auction_post(*self, *env, sender@, r),

    {
        let (creator_is_sender, claim) = match &self.active {
            None => return Err(ContractError::Std(auction_not_stored_error())),
            Some(a) => (a.creator == *sender, a.claim_time),
        };
        if creator_is_sender {
            return Err(ContractError::AlreadyActivatedAuction {});
        }
        let claim_time = match claim { Some(c) => c, None => 0 };
        if env.block_time < claim_time {
            return Err(ContractError::StillInClaimingProcedureAuctionDTag {});
        }
        let i = match self.find_auction(sender) {
            None => return Err(ContractError::AuctionNotFound {}),
            Some(i) => i,
        };
        proof {
            let k = choose|k: int| 0 <= k < self.inactive@.len() && (#[trigger] self.inactive@[k]).creator@ == sender@;
            if k != i {
                if k < i {
                    assert(self.inactive@[k].creator@ != self.inactive@[i as int].creator@);
                } else {
                    assert(self.inactive@[i as int].creator@ != self.inactive@[k].creator@);
                }
            }
        }
        let mut resp: Response<DesmosMsg> = Response::new();
        resp.add_message(DesmosMsg::RequestDtagTransfer { sender: env.contract_address.clone(), receiver: sender.clone() });
        resp.add_attribute("action", "start_auction");
        resp.add_attribute("user", self.inactive[i].creator.as_str());
        resp.add_attribute("dtag", self.inactive[i].dtag.as_str());
        proof {
            assert(attrs_view(resp.attributes@) =~= seq![("action"@, "start_auction"@), ("user"@, self.inactive@[i as int].creator@),
                ("dtag"@, self.inactive@[i as int].dtag@)]);
        }
        Ok(resp)
    }

    /// The running auction.
    pub fn query_active_auction(&self) -> (r: Result<Auction, StdError>)
        ensures
            match self.active {
                None => r matches Err(e) && auction_not_stored(e),
                Some(a) => r == Ok::<Auction, StdError>(a),
            },
    {
        match &self.active {
            Some(a) => Ok(a.duplicate()),
            None => Err(auction_not_stored_error()),
        }
    }

    /// The inactive auction of `user`.
    pub fn query_auction_by_user(&self, user: &String) -> (r: Result<Auction, StdError>)
        ensures
            match r {
                Ok(a) => exists|k: int| 0 <= k < self.inactive@.len() && #[trigger] self.inactive@[k] == a && a.creator@ == user@,
                Err(e) => auction_not_stored(e) && !has_auction(self.inactive@, user@),
            },
    {
        match self.find_auction(user) {
            Some(i) => Ok(self.inactive[i].duplicate()),
            None => Err(auction_not_stored_error()),
        }
    }
}

} // verus!

verus! {

/// What the contract needs of a message beyond a well formed state: funds for
/// a bid, a block time far from the end of the clock and an offer to take when
/// closing, a claim time when another user asks to start.
pub open spec fn execute_ready(st: AuctioneerState, env: Env, info: MessageInfo, msg: ExecuteMsg) -> bool {
    match msg {
        ExecuteMsg::MakeOffer {} => info.funds@.len() > 0,
        ExecuteMsg::CompleteAuction {} => env.block_time as int + CLAIM_PERIOD_NANOS <= u64::MAX
            && offer_at_close(st, env, info.sender@),
        ExecuteMsg::StartAuction {} => claim_known(st, info.sender@),
        _ => true,
    }
}

/// What executing a message does.
pub open spec fn execute_post(old: AuctioneerState, new: AuctioneerState, env: Env, info: MessageInfo, msg: ExecuteMsg,
    r: Result<Response<DesmosMsg>, ContractError>) -> bool {
    match msg {
        ExecuteMsg::CreateAuction { dtag, starting_price, max_participants } =>
            create_auction_post(old, new, env, info.sender, dtag, starting_price, max_participants, r),
        ExecuteMsg::MakeOffer {} => make_offer_post(old, new, env, info, r),
        ExecuteMsg::RetreatOffer {} => retreat_offer_post(old, new, info.sender@, r),
        ExecuteMsg::CompleteAuction {} => complete_auction_post(old, new, env, info.sender@, r),
        ExecuteMsg::StartAuction {} => start_auction_post(old, env, info.sender@, r) && new == old,
    }
}

/// The answers to the queries.
#[derive(Debug, PartialEq, Eq)]
pub enum QueryResponse {
    Auction(Auction),
}

impl AuctioneerState {
    /// Executes a message of a user.
    pub fn execute(&mut self, env: &Env, info: &MessageInfo, msg: ExecuteMsg) -> (r: Result<Response<DesmosMsg>, ContractError>)
        requires
            state_wf(*old(self)),
            execute_ready(*old(self), *env, *info, msg),
        ensures
            state_wf(*final(self)),
            execute_post(*old(self), *final(self), *env, *info, msg, r),
    {
        match msg {
            ExecuteMsg::CreateAuction { dtag, starting_price, max_participants } =>
                self.execute_create_auction(env, &info.sender, dtag, starting_price, max_participants),
            ExecuteMsg::MakeOffer {} => self.execute_make_offer(env, info),
            ExecuteMsg::RetreatOffer {} => self.execute_retreat_offer(&info.sender),
            ExecuteMsg::CompleteAuction {} => self.execute_complete_auction(env, &info.sender),
            ExecuteMsg::StartAuction {} => self.execute_start_auction(env, &info.sender),
        }
    }

    /// Answers a query: the running auction, or the inactive auction of a user.
    pub fn query(&self, msg: QueryMsg) -> (r: Result<QueryResponse, StdError>)
        ensures
            match msg {
                QueryMsg::GetActiveAuction {} => match self.active {
                    None => r matches Err(e) && auction_not_stored(e),
                    Some(a) => r == Ok::<QueryResponse, StdError>(QueryResponse::Auction(a)),
                },
                QueryMsg::GetAuctionByUser { user } => match r {
                    Ok(QueryResponse::Auction(a)) => exists|k: int| 0 <= k < self.inactive@.len()
                        && #[trigger] self.inactive@[k] == a && a.creator@ == user@,
                    Err(e) => auction_not_stored(e) && !has_auction(self.inactive@, user@),
                },
            },
    {
        match msg {
            QueryMsg::GetActiveAuction {} => match self.query_active_auction() {
                Ok(a) => Ok(QueryResponse::Auction(a)),
                Err(e) => Err(e),
            },
            QueryMsg::GetAuctionByUser { user } => match self.query_auction_by_user(&user) {
                Ok(a) => Ok(QueryResponse::Auction(a)),
                Err(e) => Err(e),
            },
        }
    }
}

} // verus!

verus! {

/// A bid that goes through is what the bids hold for its bidder: the funds of
/// the message, and no other bid of that bidder.
pub proof fn law_offer_recorded(old: AuctioneerState, new: AuctioneerState, env: Env, info: MessageInfo,
    r: Result<Response<DesmosMsg>, ContractError>)
    requires
        make_offer_post(old, new, env, info, r),
        r is Ok,
    ensures
        new.bids.view_bids().contains((info.sender@, coins_view(info.funds@))),
        forall|b: BidV| #[trigger] new.bids.view_bids().contains(b) && b.0 == info.sender@
            ==> b == (info.sender@, coins_view(info.funds@)),
{
    let e: BidV = (info.sender@, coins_view(info.funds@));
    assert(new.bids.view_bids().contains(e));
}

/// After withdrawing, the user has no bid, and the bids of the others stay.
pub proof fn law_offer_withdrawn(old: AuctioneerState, new: AuctioneerState, user: Seq<char>,
    r: Result<Response<DesmosMsg>, ContractError>)
    requires
        retreat_offer_post(old, new, user, r),
        r is Ok,
    ensures
        forall|b: BidV| #[trigger] new.bids.view_bids().contains(b) ==> b.0 != user,
        forall|b: BidV| #[trigger] old.bids.view_bids().contains(b) && b.0 != user ==> new.bids.view_bids().contains(b),
{
}

/// Withdrawing a bid undoes making it: the bids of the others are those of
/// before the bid, and the bidder has none.
pub proof fn law_retreat_undoes_offer(s0: AuctioneerState, s1: AuctioneerState, s2: AuctioneerState, env: Env,
    info: MessageInfo, r1: Result<Response<DesmosMsg>, ContractError>, r2: Result<Response<DesmosMsg>, ContractError>)
    requires
        make_offer_post(s0, s1, env, info, r1),
        r1 is Ok,
        retreat_offer_post(s1, s2, info.sender@, r2),
    ensures
        r2 is Ok,
        forall|b: BidV| #[trigger] s2.bids.view_bids().contains(b) <==> s0.bids.view_bids().contains(b) && b.0 != info.sender@,
{
}

/// An offer made after the running auction has ended is refused with
/// `AlreadyClosedAuction`, and nothing changes.
pub proof fn law_offer_after_end_refused(old: AuctioneerState, new: AuctioneerState, env: Env, info: MessageInfo,
    r: Result<Response<DesmosMsg>, ContractError>)
    requires
        old.active matches Some(a) && a.end_time matches Some(e) && env.block_time > e,
        make_offer_post(old, new, env, info, r),
    ensures
        r == Err::<Response<DesmosMsg>, ContractError>(ContractError::AlreadyClosedAuction {}),
        new == old,
{
}

} // verus!
