use desmos_contracts::chain::{Attribute, Env, MessageInfo};
use desmos_contracts::coins::{Coin, StdError};
use desmos_contracts::dtag_auctioneer::{
    instantiate, AuctioneerState, ContractError, DesmosMsg, ExecuteMsg, InstantiateMsg, QueryMsg, QueryResponse,
    SudoMsg,
};
use desmos_contracts::dtag_auctions::{Auction, Bid, Bids};

const BLOCK_TIME: u64 = 1_571_797_419_879_305_533;
const SECOND: u64 = 1_000_000_000;

fn mock_env() -> Env {
    Env { block_height: 12_345, block_time: BLOCK_TIME, contract_address: "cosmos2contract".to_string() }
}

fn mock_info(sender: &str, funds: &[(u128, &str)]) -> MessageInfo {
    MessageInfo {
        sender: sender.to_string(),
        funds: funds.iter().map(|(a, d)| Coin { denom: d.to_string(), amount: *a }).collect(),
    }
}

fn attrs(pairs: &[(&str, &str)]) -> Vec<Attribute> {
    pairs.iter().map(|(k, v)| Attribute { key: k.to_string(), value: v.to_string() }).collect()
}

fn auction(max_participants: u64, end_time: Option<u64>, claim_time: Option<u64>, creator: &str) -> Auction {
    Auction::new("sender_dtag".to_string(), 100, max_participants, None, end_time, claim_time, creator.to_string())
}

fn setup_test(dtag: &str) -> AuctioneerState {
    instantiate(&mock_env(), InstantiateMsg { contract_dtag: dtag.to_string() }).0
}

fn add_auction_offer(state: &mut AuctioneerState, offerer: &str, amount: u128) {
    state.bids.entries.push(Bid { bidder: offerer.to_string(), coins: vec![Coin { denom: "udsm".to_string(), amount }] });
}

#[test]
fn contract_test_instantiate() {
    let (state, resp) = instantiate(&mock_env(), InstantiateMsg { contract_dtag: "auctioneer_contract".to_string() });
    assert_eq!("auctioneer_contract", state.contract_dtag.0.as_str());
    assert_eq!(attrs(&[("action", "save_contract_profile"), ("dtag", "auctioneer_contract")]), resp.attributes);
    assert_eq!(
        vec![DesmosMsg::SaveProfile {
            dtag: "auctioneer_contract".to_string(),
            creator: "cosmos2contract".to_string(),
            nickname: Some("DTag auctioneer contract".to_string()),
            bio: Some("Use me to put your precious DTag on sale to best bidder!".to_string()),
            profile_picture: None,
            cover_picture: None,
        }],
        resp.messages
    );
}

#[test]
fn test_execute_dtag_auction_creation_successful() {
    let info = mock_info("test_addr", &[]);
    let mut state = setup_test("contract_dtag");
    let msg = ExecuteMsg::CreateAuction { dtag: "sender_dtag".to_string(), starting_price: 100, max_participants: 50 };
    let res = state.execute(&mock_env(), &info, msg).unwrap();
    assert_eq!(vec![auction(50, None, None, "test_addr")], state.inactive);
    assert_eq!(
        vec![DesmosMsg::RequestDtagTransfer { sender: "cosmos2contract".to_string(), receiver: "test_addr".to_string() }],
        res.messages
    );
}

#[test]
fn test_execute_dtag_auction_creation_auction_already_present() {
    let info = mock_info("test_addr", &[]);
    let mut state = setup_test("contract_dtag");
    state.inactive.push(auction(50, None, None, "test_addr"));
    let msg = ExecuteMsg::CreateAuction { dtag: "sender_dtag".to_string(), starting_price: 100, max_participants: 50 };
    let res = state.execute(&mock_env(), &info, msg);
    assert_eq!(ContractError::AlreadyExistentAuction {}, res.unwrap_err());
}

#[test]
fn test_execute_dtag_auction_creation_auction_already_active() {
    let info = mock_info("test_addr", &[]);
    let mut state = setup_test("contract_dtag");
    state.active = Some(auction(50, Some(BLOCK_TIME), None, "test_addr"));
    let msg = ExecuteMsg::CreateAuction { dtag: "another_dtag".to_string(), starting_price: 100, max_participants: 50 };
    let res = state.execute(&mock_env(), &info, msg).unwrap();
    assert_eq!(attrs(&[("action", "create_auction"), ("creator", "test_addr"), ("dtag", "another_dtag")]), res.attributes);
    assert!(res.messages.is_empty());
}

#[test]
fn test_execute_make_offer() {
    let mut state = setup_test("contract_dtag");
    state.active = Some(auction(50, Some(10_000_000_000 * SECOND), None, "test_addr"));
    let res = state.execute(&mock_env(), &mock_info("offerer_addr", &[(1000, "udsm")]), ExecuteMsg::MakeOffer {});
    assert!(res.is_ok());
    let bid = state.bids.entries.iter().find(|b| b.bidder == "offerer_addr").unwrap();
    assert_eq!(vec![Coin { denom: "udsm".to_string(), amount: 1000 }], bid.coins);
}

#[test]
fn test_execute_make_offer_no_active_auction() {
    let mut state = setup_test("contract_dtag");
    let err = state
        .execute(&mock_env(), &mock_info("offerer_addr", &[(1_000_000_000, "udsm")]), ExecuteMsg::MakeOffer {})
        .unwrap_err();
    assert_eq!(ContractError::AuctionNotFound {}, err);
}

#[test]
fn test_execute_make_offer_amount_offer_lower_than_minimum() {
    let mut state = setup_test("contract_dtag");
    state.active = Some(auction(50, Some(10_000_000_000 * SECOND), None, "test_addr"));
    let err = state.execute(&mock_env(), &mock_info("offerer_addr", &[(10, "udsm")]), ExecuteMsg::MakeOffer {}).unwrap_err();
    assert_eq!(ContractError::MinimumPriceNotReached {}, err);
}

#[test]
fn test_execute_make_offer_amount_offer_lower_than_the_last_offer() {
    let mut state = setup_test("contract_dtag");
    state.active = Some(auction(50, Some(10_000_000_000 * SECOND), None, "test_addr"));
    add_auction_offer(&mut state, "offerer", 200);
    let err = state.execute(&mock_env(), &mock_info("offerer_addr", &[(100, "udsm")]), ExecuteMsg::MakeOffer {}).unwrap_err();
    assert_eq!(ContractError::MinimumPriceNotReached {}, err);
}

#[test]
fn test_execute_make_offer_max_participants_number_reached() {
    let mut state = setup_test("contract_dtag");
    add_auction_offer(&mut state, "addr1", 10);
    add_auction_offer(&mut state, "addr2", 20);
    state.active = Some(auction(1, Some(10_000_000_000 * SECOND), None, "test_addr"));
    let err = state.execute(&mock_env(), &mock_info("offerer_addr", &[(100, "udsm")]), ExecuteMsg::MakeOffer {}).unwrap_err();
    assert_eq!(ContractError::MaxParticipantsNumberReached {}, err);
}

#[test]
fn test_execute_retreat_offer() {
    let mut state = setup_test("contract_dtag");
    state.active = Some(auction(50, Some(BLOCK_TIME), None, "test_addr"));
    add_auction_offer(&mut state, "offerer_addr", 1000);
    let response = state.execute(&mock_env(), &mock_info("offerer_addr", &[]), ExecuteMsg::RetreatOffer {}).unwrap();
    assert_eq!(attrs(&[("action", "retreat_offer"), ("user", "offerer_addr")]), response.attributes);
    assert!(response.messages.is_empty());
    assert_eq!(false, state.bids.entries.iter().any(|b| b.bidder == "offerer_addr"));
}

#[test]
fn test_execute_retreat_offer_no_active_auction() {
    let mut state = setup_test("contract_dtag");
    let response = state.execute(&mock_env(), &mock_info("test_addr", &[]), ExecuteMsg::RetreatOffer {}).unwrap_err();
    assert_eq!(ContractError::AuctionNotFound {}, response);
}

#[test]
fn test_execute_complete_auction() {
    let mut state = setup_test("contract_dtag");
    state.active = Some(auction(50, Some(BLOCK_TIME), None, "test_addr"));
    state.inactive.push(auction(50, None, None, "test_addr"));
    add_auction_offer(&mut state, "first", 110);
    add_auction_offer(&mut state, "second", 120);
    add_auction_offer(&mut state, "third", 130);
    let response = state.execute(&mock_env(), &mock_info("test_addr", &[]), ExecuteMsg::CompleteAuction {}).unwrap();
    assert_eq!(
        attrs(&[("action", "complete_auction"), ("user", "test_addr"), ("dtag", "sender_dtag"), ("winner", "third")]),
        response.attributes
    );
    assert_eq!(
        vec![
            DesmosMsg::BankSend {
                to_address: "test_addr".to_string(),
                amount: vec![Coin { denom: "udsm".to_string(), amount: 130 }],
            },
            DesmosMsg::RequestDtagTransfer { sender: "third".to_string(), receiver: "cosmos2contract".to_string() },
        ],
        response.messages
    );
    assert_eq!(false, state.inactive.iter().any(|a| a.creator == "test_addr"));
    assert_eq!(Some(BLOCK_TIME + 86_400_000_000_000), state.active.unwrap().claim_time);
}

#[test]
fn test_execute_complete_auction_no_auction_found() {
    let mut state = setup_test("contract_dtag");
    let response = state.execute(&mock_env(), &mock_info("test_addr", &[]), ExecuteMsg::CompleteAuction {}).unwrap_err();
    assert_eq!(ContractError::AuctionNotFound {}, response);
}

#[test]
fn test_execute_start_auction() {
    let mut state = setup_test("contract_dtag");
    state.active = Some(auction(50, Some(0), Some(0), "third"));
    state.inactive.push(auction(50, None, None, "first"));
    state.inactive.push(auction(50, None, None, "second"));
    let response = state.execute(&mock_env(), &mock_info("first", &[]), ExecuteMsg::StartAuction {}).unwrap();
    assert_eq!(attrs(&[("action", "start_auction"), ("user", "first"), ("dtag", "sender_dtag")]), response.attributes);
    assert_eq!(
        vec![DesmosMsg::RequestDtagTransfer { sender: "cosmos2contract".to_string(), receiver: "first".to_string() }],
        response.messages
    );
}

#[test]
fn test_execute_start_auction_already_active_auction_by_sender() {
    let mut state = setup_test("contract_dtag");
    state.active = Some(auction(50, Some(0), Some(0), "test_addr"));
    let error = state.execute(&mock_env(), &mock_info("test_addr", &[]), ExecuteMsg::StartAuction {}).unwrap_err();
    assert_eq!(ContractError::AlreadyActivatedAuction {}, error);
}

#[test]
fn test_execute_start_auction_still_in_claiming_procedure() {
    let mut state = setup_test("contract_dtag");
    let claim = (BLOCK_TIME / SECOND + 50) * SECOND;
    state.active = Some(auction(50, Some(0), Some(claim), "usr_addr"));
    let error = state.execute(&mock_env(), &mock_info("test_addr", &[]), ExecuteMsg::StartAuction {}).unwrap_err();
    assert_eq!(ContractError::StillInClaimingProcedureAuctionDTag {}, error);
}

#[test]
fn test_execute_start_auction_sender_auction_not_found() {
    let mut state = setup_test("contract_dtag");
    let claim = (BLOCK_TIME / SECOND - 50) * SECOND;
    state.active = Some(auction(50, Some(0), Some(claim), "usr_addr"));
    let error = state.execute(&mock_env(), &mock_info("test_addr", &[]), ExecuteMsg::StartAuction {}).unwrap_err();
    assert_eq!(ContractError::AuctionNotFound {}, error);
}

#[test]
fn test_sudo_update_dtag_auction_status() {
    let mut state = setup_test("contract_dtag");
    state.inactive.push(auction(50, None, None, "test_addr"));
    let sudo_msg = SudoMsg::UpdateDTagAuctionStatus {
        user: "test_addr".to_string(),
        transfer_status: "accept_dtag_transfer_request".to_string(),
    };
    let response = state.sudo(&mock_env(), sudo_msg).unwrap();
    assert_eq!(
        attrs(&[("action", "update_dtag_auction_status"), ("status", "Activated"), ("user", "test_addr")]),
        response.attributes
    );
    let active = state.active.unwrap();
    assert_eq!(BLOCK_TIME, active.start_time.unwrap());
    assert_eq!(BLOCK_TIME + 172_800 * SECOND, active.end_time.unwrap());
}

#[test]
fn test_sudo_update_dtag_auction_status_refused_dtag_transfer_request() {
    let mut state = setup_test("contract_dtag");
    state.inactive.push(auction(50, None, None, "test_addr"));
    let sudo_msg = SudoMsg::UpdateDTagAuctionStatus {
        user: "test_addr".to_string(),
        transfer_status: "refuse_dtag_transfer_request".to_string(),
    };
    let response = state.sudo(&mock_env(), sudo_msg).unwrap();
    assert_eq!(
        attrs(&[("action", "update_dtag_auction_status"), ("status", "Deleted"), ("user", "test_addr")]),
        response.attributes
    );
    assert_eq!(false, state.inactive.iter().any(|a| a.creator == "test_addr"));
}

#[test]
fn test_sudo_update_dtag_auction_status_no_auction_found() {
    let mut state = setup_test("contract_dtag");
    let sudo_msg = SudoMsg::UpdateDTagAuctionStatus {
        user: "test_addr".to_string(),
        transfer_status: "accept_dtag_transfer_request".to_string(),
    };
    let err = state.sudo(&mock_env(), sudo_msg).unwrap_err();
    assert_eq!(ContractError::AuctionNotFound {}, err);
}

#[test]
fn sudo_with_unknown_transfer_status_error() {
    let mut state = setup_test("contract_dtag");
    state.inactive.push(auction(50, None, None, "test_addr"));
    let sudo_msg = SudoMsg::UpdateDTagAuctionStatus { user: "test_addr".to_string(), transfer_status: "maybe".to_string() };
    assert_eq!(ContractError::UnknownDTagTransferStatus {}, state.sudo(&mock_env(), sudo_msg).unwrap_err());
    assert_eq!(1, state.inactive.len());
}

#[test]
fn test_query_active_auction() {
    let mut state = setup_test("contract_dtag");
    state.active = Some(auction(50, Some(BLOCK_TIME), None, "test_addr"));
    let result = state.query(QueryMsg::GetActiveAuction {}).unwrap();
    assert_eq!(QueryResponse::Auction(auction(50, Some(BLOCK_TIME), None, "test_addr")), result);
}

#[test]
fn query_without_active_auction_error() {
    let state = setup_test("contract_dtag");
    let err = state.query(QueryMsg::GetActiveAuction {}).unwrap_err();
    assert_eq!(StdError::NotFound { kind: "dtag_auctioneer::state::Auction".to_string() }, err);
}

#[test]
fn test_query_auction_by_user() {
    let mut state = setup_test("contract_dtag");
    state.inactive.push(auction(50, None, None, "test_addr"));
    let result = state.query(QueryMsg::GetAuctionByUser { user: "test_addr".to_string() }).unwrap();
    assert_eq!(QueryResponse::Auction(auction(50, None, None, "test_addr")), result);
}

#[test]
fn bids_stay_sorted_by_bidder() {
    let mut bids = Bids { entries: Vec::new() };
    bids.put("carol".to_string(), vec![Coin { denom: "udsm".to_string(), amount: 3 }]);
    bids.put("alice".to_string(), vec![Coin { denom: "udsm".to_string(), amount: 1 }]);
    bids.put("bob".to_string(), vec![Coin { denom: "udsm".to_string(), amount: 2 }]);
    bids.put("alice".to_string(), vec![Coin { denom: "udsm".to_string(), amount: 5 }]);
    let names: Vec<&str> = bids.entries.iter().map(|b| b.bidder.as_str()).collect();
    assert_eq!(vec!["alice", "bob", "carol"], names);
    assert_eq!(5, bids.entries[0].coins[0].amount);
    bids.remove(&"bob".to_string());
    let names: Vec<&str> = bids.entries.iter().map(|b| b.bidder.as_str()).collect();
    assert_eq!(vec!["alice", "carol"], names);
}

#[test]
fn retreating_undoes_an_offer() {
    let mut state = setup_test("contract_dtag");
    state.active = Some(auction(50, Some(10_000_000_000 * SECOND), None, "test_addr"));
    add_auction_offer(&mut state, "first", 200);
    state.execute(&mock_env(), &mock_info("second", &[(300, "udsm")]), ExecuteMsg::MakeOffer {}).unwrap();
    assert_eq!(2, state.bids.entries.len());
    state.execute(&mock_env(), &mock_info("second", &[]), ExecuteMsg::RetreatOffer {}).unwrap();
    assert_eq!(vec![Bid { bidder: "first".to_string(), coins: vec![Coin { denom: "udsm".to_string(), amount: 200 }] }], state.bids.entries);
}
