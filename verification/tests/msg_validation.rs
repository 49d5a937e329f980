use desmos_contracts::poap_event;
use desmos_contracts::poap_manager;
use desmos_contracts::remarkables;

const NANOS: u64 = 1_000_000_000;

fn event_msg(start: u64, end: u64, per_address_limit: u32, poap_uri: &str) -> poap_event::InstantiateMsg {
    poap_event::InstantiateMsg {
        admin: "".to_string(),
        minter: "".to_string(),
        cw721_code_id: 0,
        cw721_instantiate_msg: poap_event::Cw721InstantiateMsg {
            name: "".to_string(),
            minter: "".to_string(),
            symbol: "".to_string(),
        },
        event_info: poap_event::EventInfo {
            creator: "".to_string(),
            start_time: start,
            end_time: end,
            per_address_limit,
            poap_uri: poap_uri.to_string(),
        },
    }
}

#[test]
fn instantiate_with_start_time_after_end_time_error() {
    let (start, end) = (2 * NANOS, NANOS);
    let msg = event_msg(start, end, 1, "ipfs://domain.com");
    assert_eq!(poap_event::ContractError::StartTimeAfterEndTime { start, end }, msg.validate().unwrap_err());
}

#[test]
fn instantiate_with_start_time_equal_end_time_error() {
    let (start, end) = (NANOS, NANOS);
    let msg = event_msg(start, end, 1, "ipfs://domain.com");
    assert_eq!(poap_event::ContractError::StartTimeAfterEndTime { start, end }, msg.validate().unwrap_err());
}

#[test]
fn instantiate_with_invalid_per_address_limit_error() {
    let msg = event_msg(NANOS, 2 * NANOS, 0, "ipfs://domain.com");
    assert_eq!(poap_event::ContractError::InvalidPerAddressLimit {}, msg.validate().unwrap_err());
}

#[test]
fn msg_instantiate_with_invalid_poap_uri_error() {
    let msg = event_msg(NANOS, 2 * NANOS, 1, "invalid_base_poap_uri");
    assert_eq!(poap_event::ContractError::InvalidPoapUri {}, msg.validate().unwrap_err());
}

#[test]
fn msg_instantiate_with_non_ipfs_poap_uri_error() {
    let msg = event_msg(NANOS, 2 * NANOS, 1, "https://domain.com");
    assert_eq!(poap_event::ContractError::InvalidPoapUri {}, msg.validate().unwrap_err());
}

#[test]
fn update_event_info_start_time_after_end_time_error() {
    let (start, end) = (2 * NANOS, NANOS);
    let msg = poap_event::ExecuteMsg::UpdateEventInfo { start_time: start, end_time: end };
    assert_eq!(poap_event::ContractError::StartTimeAfterEndTime { start, end }, msg.validate().unwrap_err());
}

#[test]
fn update_event_info_start_time_equal_end_time_error() {
    let (start, end) = (NANOS, NANOS);
    let msg = poap_event::ExecuteMsg::UpdateEventInfo { start_time: start, end_time: end };
    assert_eq!(poap_event::ContractError::StartTimeAfterEndTime { start, end }, msg.validate().unwrap_err());
}

fn manager_msg(admin: &str, poap_code_id: u64) -> poap_manager::InstantiateMsg {
    poap_manager::InstantiateMsg {
        admin: admin.to_string(),
        poap_code_id,
        poap_instantiate_msg: poap_event::InstantiateMsg {
            admin: "test".to_string(),
            minter: "test".to_string(),
            cw721_code_id: 2,
            cw721_instantiate_msg: poap_event::Cw721InstantiateMsg {
                minter: "".to_string(),
                name: "test".to_string(),
                symbol: "test".to_string(),
            },
            event_info: poap_event::EventInfo {
                creator: "creator".to_string(),
                start_time: 10 * NANOS,
                end_time: 20 * NANOS,
                per_address_limit: 2,
                poap_uri: "ipfs://popap-uri".to_string(),
            },
        },
    }
}

#[test]
fn instantiate_msg_with_empty_admin_error() {
    assert!(manager_msg("", 1).validate().is_err());
}

#[test]
fn instantiate_msg_with_blank_admin_error() {
    assert!(manager_msg("   ", 1).validate().is_err());
}

#[test]
fn instantiate_msg_with_invalid_poap_id_error() {
    assert!(manager_msg("desmos1nwp8gxrnmrsrzjdhvk47vvmthzxjtphgxp5ftc", 0).validate().is_err());
}

#[test]
fn proper_instantiate_msg_no_error() {
    assert!(manager_msg("desmos1nwp8gxrnmrsrzjdhvk47vvmthzxjtphgxp5ftc", 1).validate().is_ok());
}

#[test]
fn proper_claim_msg_no_error() {
    assert!(poap_manager::ExecuteMsg::Claim {}.validate().is_ok());
}

#[test]
fn mint_into_msg_with_empty_recipient_error() {
    assert!(poap_manager::ExecuteMsg::MintTo { recipient: "".into() }.validate().is_err());
}

#[test]
fn mint_into_msg_with_blank_recipient_error() {
    assert!(poap_manager::ExecuteMsg::MintTo { recipient: "  ".into() }.validate().is_err());
}

#[test]
fn proper_mint_into_msg_no_error() {
    let msg = poap_manager::ExecuteMsg::MintTo { recipient: "desmos1nwp8gxrnmrsrzjdhvk47vvmthzxjtphgxp5ftc".into() };
    assert!(msg.validate().is_ok());
}

#[test]
fn update_admin_msg_with_empty_new_admin_error() {
    assert!(poap_manager::ExecuteMsg::UpdateAdmin { new_admin: "".into() }.validate().is_err());
}

#[test]
fn update_admin_msg_with_blank_new_admin_error() {
    assert!(poap_manager::ExecuteMsg::UpdateAdmin { new_admin: "  ".into() }.validate().is_err());
}

#[test]
fn update_admin_msg_into_msg_no_error() {
    let msg = poap_manager::ExecuteMsg::UpdateAdmin { new_admin: "desmos1nwp8gxrnmrsrzjdhvk47vvmthzxjtphgxp5ftc".into() };
    assert!(msg.validate().is_ok());
}

fn remarkables_msg(subspace_id: u64, cw721_code_id: u64, rarities: Vec<remarkables::Rarity>) -> remarkables::InstantiateMsg {
    remarkables::InstantiateMsg {
        admin: "admin".into(),
        cw721_code_id,
        cw721_instantiate_msg: remarkables::Cw721InstantiateMsg {
            name: "".to_string(),
            minter: "".to_string(),
            symbol: "".to_string(),
        },
        subspace_id,
        rarities,
    }
}

#[test]
fn instantiate_msg_with_invalid_subspace_id_error() {
    assert_eq!(remarkables::ContractError::InvalidSubspaceId {}, remarkables_msg(0, 1, vec![]).validate().unwrap_err())
}

#[test]
fn instantiate_msg_with_cw721_code_id_error() {
    assert_eq!(remarkables::ContractError::InvalidCw721CodeId {}, remarkables_msg(1, 0, vec![]).validate().unwrap_err())
}

#[test]
fn instantiate_msg_with_empty_rarities_error() {
    assert_eq!(remarkables::ContractError::EmptyRarities {}, remarkables_msg(1, 1, vec![]).validate().unwrap_err())
}

#[test]
fn valid_instantiate_msg_no_error() {
    let rarities = vec![remarkables::Rarity { engagement_threshold: 100, mint_fees: vec![] }];
    remarkables_msg(1, 1, rarities).validate().unwrap()
}

#[test]
fn mint_msg_without_valid_uri_error() {
    let msg = remarkables::ExecuteMsg::Mint { post_id: 1, rarity_level: 1, remarkables_uri: "".into() };
    assert_eq!(msg.validate().unwrap_err(), remarkables::ContractError::InvalidRemarkablesUri {})
}

#[test]
fn mint_msg_with_invalid_uri_schema_error() {
    let msg = remarkables::ExecuteMsg::Mint { post_id: 1, rarity_level: 1, remarkables_uri: "https://remarkables.com".into() };
    assert_eq!(msg.validate().unwrap_err(), remarkables::ContractError::InvalidRemarkablesUri {})
}

#[test]
fn mint_msg_with_invalid_post_id_error() {
    let msg = remarkables::ExecuteMsg::Mint { post_id: 0, rarity_level: 1, remarkables_uri: "https://remarkables.com".into() };
    assert_eq!(msg.validate().unwrap_err(), remarkables::ContractError::InvalidPostId {})
}

#[test]
fn mint_msg_with_valid_uri_schema_no_error() {
    let msg = remarkables::ExecuteMsg::Mint { post_id: 1, rarity_level: 1, remarkables_uri: "ipfs://remarkables.com".into() };
    msg.validate().unwrap()
}

#[test]
fn other_msgs_no_error() {
    let msg = remarkables::ExecuteMsg::UpdateAdmin { new_admin: "new_admin".into() };
    msg.validate().unwrap()
}

#[test]
fn manager_blank_admin_is_reported_with_its_message() {
    let error = manager_msg(" \t\n", 1).validate().unwrap_err();
    assert_eq!(
        poap_manager::ContractError::InvalidMessage { message: "admin can not be empty or blank".to_string() },
        error
    );
}
