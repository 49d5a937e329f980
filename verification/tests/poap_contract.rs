use desmos_contracts::chain::{Env, MessageInfo};
use desmos_contracts::coins::StdError;
use desmos_contracts::poap::{ContractError, ExecuteMsg, InstantiateMsg, Outcome, OwnershipError, PoapContract};

/// The extension that the tests mint POAPs with.
type Ext = Option<String>;

const ADMIN: &str = "admin";
const MINTER: &str = "minter";
const USER: &str = "user";
const CONTRACT_NAME: &str = "Test POAP";
const SYMBOL: &str = "TPOAP";
const METADATA_URI: &str = "ipfs://poap-metadata";
const SECOND: u64 = 1_000_000_000;

fn mock_env() -> Env {
    Env { block_height: 12_345, block_time: 1_571_797_419_879_305_533, contract_address: "cosmos2contract".to_string() }
}

fn mock_env_with_time(seconds: u64) -> Env {
    Env { block_time: seconds * SECOND, ..mock_env() }
}

fn mock_info(sender: &str) -> MessageInfo {
    MessageInfo { sender: sender.to_string(), funds: vec![] }
}

fn validate(addr: &str) -> Result<String, StdError> {
    if addr.len() < 3 {
        Err(StdError::GenericErr { msg: "Invalid input: human address too short".to_string() })
    } else {
        Ok(addr.to_string())
    }
}

fn err<T, E>(r: Result<T, E>) -> E {
    match r {
        Err(e) => e,
        Ok(_) => panic!("an error was expected"),
    }
}

fn instantiate_msg(
    admin: Option<&str>,
    minter: Option<&str>,
    is_transferable: bool,
    is_mintable: bool,
    mint_start_time: Option<u64>,
    mint_end_time: Option<u64>,
) -> InstantiateMsg {
    InstantiateMsg {
        name: CONTRACT_NAME.to_string(),
        symbol: SYMBOL.to_string(),
        admin: admin.map(|a| a.to_string()),
        metadata_uri: METADATA_URI.to_string(),
        minter: minter.map(|m| m.to_string()),
        is_transferable,
        is_mintable,
        mint_start_time,
        mint_end_time,
    }
}

fn instantiate(sender: &str, msg: InstantiateMsg) -> Result<PoapContract<Ext>, ContractError> {
    let owner = validate(msg.admin.as_deref().unwrap_or(sender));
    let minter = msg.minter.as_deref().map(validate);
    PoapContract::instantiate(msg, owner, minter).map(|(c, resp)| {
        assert_eq!(0, resp.messages.len());
        c
    })
}

fn setup_contract(is_transferable: bool, is_mintable: bool, start: Option<u64>, end: Option<u64>) -> PoapContract<Ext> {
    let msg = instantiate_msg(
        Some(ADMIN),
        Some(MINTER),
        is_transferable,
        is_mintable,
        start.map(|s| s * SECOND),
        end.map(|e| e * SECOND),
    );
    instantiate(ADMIN, msg).unwrap()
}

fn execute(contract: &mut PoapContract<Ext>, env: &Env, sender: &str, msg: ExecuteMsg<Ext>) -> Result<Outcome, ContractError> {
    let addrs: Vec<Result<String, StdError>> = match &msg {
        ExecuteMsg::UpdateMinter { minter: Some(m) } => vec![validate(m)],
        ExecuteMsg::MintTo { users, .. } => users.iter().map(|u| validate(u)).collect(),
        _ => vec![],
    };
    contract.execute(env, &mock_info(sender), msg, addrs)
}

fn assert_poap_minted(contract: &PoapContract<Ext>, poap_id: &str, owner: &str) {
    let token = contract.tokens.iter().find(|t| t.token_id == poap_id).expect("the poap was minted");
    assert_eq!(Some(METADATA_URI.to_string()), token.token_uri);
    assert_eq!(owner, token.owner);
}

fn mint(contract: &mut PoapContract<Ext>, env: &Env, sender: &str) -> Result<Outcome, ContractError> {
    execute(contract, env, sender, ExecuteMsg::Mint { extension: None })
}

#[test]
fn contract_tests_proper_instantiation_without_admin_and_minter() {
    let contract = instantiate(ADMIN, instantiate_msg(None, None, false, true, None, None)).unwrap();
    assert_eq!(Some(ADMIN.to_string()), contract.minter);
    assert_eq!(Some(ADMIN.to_string()), contract.owner);
}

#[test]
fn contract_tests_proper_instantiation_without_minter() {
    let contract = instantiate(ADMIN, instantiate_msg(Some(ADMIN), None, false, true, None, None)).unwrap();
    assert_eq!(Some(ADMIN.to_string()), contract.minter);
    assert_eq!(Some(ADMIN.to_string()), contract.owner);
}

#[test]
fn contract_tests_proper_instantiation() {
    let contract = instantiate(ADMIN, instantiate_msg(Some(ADMIN), Some(MINTER), false, true, None, None)).unwrap();
    assert_eq!(Some(MINTER.to_string()), contract.minter);
    assert_eq!(Some(ADMIN.to_string()), contract.owner);
}

#[test]
fn instantiation_with_invalid_time_window_error() {
    let msg = instantiate_msg(Some(ADMIN), Some(MINTER), false, true, Some(200 * SECOND), Some(200 * SECOND));
    assert_eq!(ContractError::InvalidTimestampValues {}, err(instantiate(ADMIN, msg)));
}

#[test]
fn contract_tests_user_can_mint_if_mintable() {
    let mut contract = setup_contract(true, true, None, None);
    let poap_id = contract.generate_poap_id();
    mint(&mut contract, &mock_env(), USER).unwrap();
    assert_poap_minted(&contract, &poap_id, USER);
}

#[test]
fn contract_tests_user_cant_mint_if_not_mintable() {
    let mut contract = setup_contract(true, false, None, None);
    assert_eq!(ContractError::MintDisabled {}, err(mint(&mut contract, &mock_env(), USER)));
}

#[test]
fn minter_can_mint_if_not_mintable() {
    let mut contract = setup_contract(true, false, None, None);
    let poap_id = contract.generate_poap_id();
    mint(&mut contract, &mock_env(), MINTER).unwrap();
    assert_poap_minted(&contract, &poap_id, MINTER);
}

#[test]
fn contract_tests_user_can_mint_after_start_time() {
    let mut contract = setup_contract(true, true, Some(200), None);
    let poap_id = contract.generate_poap_id();
    mint(&mut contract, &mock_env_with_time(200), USER).unwrap();
    assert_poap_minted(&contract, &poap_id, USER);
}

#[test]
fn contract_tests_user_cant_mint_before_start_time() {
    let mut contract = setup_contract(true, true, Some(200), None);
    assert_eq!(ContractError::EventNotStarted {}, err(mint(&mut contract, &mock_env_with_time(199), USER)));
}

#[test]
fn minter_can_mint_before_start_time() {
    let mut contract = setup_contract(true, true, Some(200), None);
    let poap_id = contract.generate_poap_id();
    mint(&mut contract, &mock_env_with_time(199), MINTER).unwrap();
    assert_poap_minted(&contract, &poap_id, MINTER);
}

#[test]
fn contract_tests_user_can_mint_before_end_time() {
    let mut contract = setup_contract(true, true, None, Some(200));
    let poap_id = contract.generate_poap_id();
    mint(&mut contract, &mock_env_with_time(199), USER).unwrap();
    assert_poap_minted(&contract, &poap_id, USER);
}

#[test]
fn contract_tests_user_cant_mint_after_end_time() {
    let mut contract = setup_contract(true, true, None, Some(200));
    assert_eq!(ContractError::EventTerminated {}, err(mint(&mut contract, &mock_env_with_time(200), USER)));
}

#[test]
fn minter_can_mint_after_end_time() {
    let mut contract = setup_contract(true, true, None, Some(200));
    let poap_id = contract.generate_poap_id();
    mint(&mut contract, &mock_env_with_time(200), MINTER).unwrap();
    assert_poap_minted(&contract, &poap_id, MINTER);
}

#[test]
fn contract_tests_user_can_mint_during_mint_time() {
    let mut contract = setup_contract(true, true, Some(100), Some(200));
    let poap_id = contract.generate_poap_id();
    mint(&mut contract, &mock_env_with_time(150), USER).unwrap();
    assert_poap_minted(&contract, &poap_id, USER);
}

#[test]
fn contract_tests_user_cant_mint_outside_mint_time() {
    let mut contract = setup_contract(true, true, Some(100), Some(200));
    assert_eq!(ContractError::EventNotStarted {}, err(mint(&mut contract, &mock_env_with_time(99), USER)));
    assert_eq!(ContractError::EventTerminated {}, err(mint(&mut contract, &mock_env_with_time(200), USER)));
}

#[test]
fn minter_can_mint_outside_mint_time() {
    let mut contract = setup_contract(true, true, Some(100), Some(200));
    let poap_id = contract.generate_poap_id();
    mint(&mut contract, &mock_env_with_time(99), MINTER).unwrap();
    assert_poap_minted(&contract, &poap_id, MINTER);
    // The minter holds a POAP now: a second one is refused.
    let second = mint(&mut contract, &mock_env_with_time(200), MINTER);
    match err(second) {
        ContractError::PoapAlreadyMinted { user } => assert_eq!(MINTER, user),
        other => panic!("unexpected error {:?}", other),
    }
}

#[test]
fn user_cant_mint_for_other_users() {
    let mut contract = setup_contract(true, true, None, None);
    let msg = ExecuteMsg::MintTo { users: vec![MINTER.to_string()], extension: None };
    assert_eq!(ContractError::MintUnauthorized {}, err(execute(&mut contract, &mock_env(), USER, msg)));
}

#[test]
fn minter_can_mint_for_other_users() {
    let mut contract = setup_contract(true, true, None, None);
    let poap_id = contract.generate_poap_id();
    let msg = ExecuteMsg::MintTo { users: vec![USER.to_string()], extension: None };
    execute(&mut contract, &mock_env(), MINTER, msg).unwrap();
    assert_poap_minted(&contract, &poap_id, USER);
}

#[test]
fn mint_to_many_users_gives_consecutive_ids() {
    let mut contract = setup_contract(true, true, None, None);
    let msg = ExecuteMsg::MintTo { users: vec!["alice".to_string(), "bob".to_string()], extension: None };
    execute(&mut contract, &mock_env(), ADMIN, msg).unwrap();
    assert_poap_minted(&contract, "1", "alice");
    assert_poap_minted(&contract, "2", "bob");
    assert_eq!(2, contract.token_count);
}

#[test]
fn can_transfer_if_transferable() {
    let mut contract = setup_contract(true, true, None, None);
    let poap_id = contract.generate_poap_id();
    mint(&mut contract, &mock_env(), USER).unwrap();
    assert_poap_minted(&contract, &poap_id, USER);
    let msg = ExecuteMsg::TransferNft { recipient: ADMIN.to_string(), token_id: poap_id };
    assert!(matches!(execute(&mut contract, &mock_env(), USER, msg), Ok(Outcome::Forward)));
}

#[test]
fn cant_transfer_if_not_transferable() {
    let mut contract = setup_contract(false, true, None, None);
    let poap_id = contract.generate_poap_id();
    mint(&mut contract, &mock_env(), USER).unwrap();
    assert_poap_minted(&contract, &poap_id, USER);
    let msg = ExecuteMsg::TransferNft { recipient: ADMIN.to_string(), token_id: poap_id };
    assert_eq!(ContractError::TransferDisabled {}, err(execute(&mut contract, &mock_env(), USER, msg)));
}

#[test]
fn can_send_if_transferable() {
    let mut contract = setup_contract(true, true, None, None);
    let poap_id = contract.generate_poap_id();
    mint(&mut contract, &mock_env(), USER).unwrap();
    assert_poap_minted(&contract, &poap_id, USER);
    let msg = ExecuteMsg::SendNft { contract: "contract".to_string(), token_id: poap_id, msg: b"growing power".to_vec() };
    assert!(matches!(execute(&mut contract, &mock_env(), USER, msg), Ok(Outcome::Forward)));
}

#[test]
fn cant_send_if_not_transferable() {
    let mut contract = setup_contract(false, true, None, None);
    let poap_id = contract.generate_poap_id();
    mint(&mut contract, &mock_env(), USER).unwrap();
    assert_poap_minted(&contract, &poap_id, USER);
    let msg = ExecuteMsg::SendNft { contract: "contract".to_string(), token_id: poap_id, msg: b"growing power".to_vec() };
    assert_eq!(ContractError::TransferDisabled {}, err(execute(&mut contract, &mock_env(), USER, msg)));
}

#[test]
fn only_admin_can_update_the_minter() {
    let mut contract = setup_contract(true, true, None, None);
    let msg = || ExecuteMsg::UpdateMinter { minter: Some(USER.to_string()) };
    assert_eq!(ContractError::Ownership(OwnershipError::NotOwner), err(execute(&mut contract, &mock_env(), USER, msg())));
    assert_eq!(ContractError::Ownership(OwnershipError::NotOwner), err(execute(&mut contract, &mock_env(), MINTER, msg())));
    execute(&mut contract, &mock_env(), ADMIN, msg()).unwrap();
    assert_eq!(USER.to_string(), contract.minter.unwrap());
}

#[test]
fn only_admin_can_set_mintable() {
    let mut contract = setup_contract(true, true, None, None);
    let msg = || ExecuteMsg::SetMintable { mintable: false };
    assert_eq!(ContractError::Ownership(OwnershipError::NotOwner), err(execute(&mut contract, &mock_env(), USER, msg())));
    assert_eq!(ContractError::Ownership(OwnershipError::NotOwner), err(execute(&mut contract, &mock_env(), MINTER, msg())));
    execute(&mut contract, &mock_env(), ADMIN, msg()).unwrap();
    assert_eq!(false, contract.is_mintable);
}

#[test]
fn only_admin_can_set_transferable() {
    let mut contract = setup_contract(true, true, None, None);
    let msg = || ExecuteMsg::SetTransferable { transferable: false };
    assert_eq!(ContractError::Ownership(OwnershipError::NotOwner), err(execute(&mut contract, &mock_env(), USER, msg())));
    assert_eq!(ContractError::Ownership(OwnershipError::NotOwner), err(execute(&mut contract, &mock_env(), MINTER, msg())));
    execute(&mut contract, &mock_env(), ADMIN, msg()).unwrap();
    assert_eq!(false, contract.is_transferable);
}

#[test]
fn only_admin_can_set_start_end_time() {
    let mut contract = setup_contract(true, true, None, None);
    let msg = || ExecuteMsg::SetMintStartEndTime { start_time: Some(SECOND), end_time: Some(200 * SECOND) };
    assert_eq!(ContractError::Ownership(OwnershipError::NotOwner), err(execute(&mut contract, &mock_env(), USER, msg())));
    assert_eq!(ContractError::Ownership(OwnershipError::NotOwner), err(execute(&mut contract, &mock_env(), MINTER, msg())));
    execute(&mut contract, &mock_env(), ADMIN, msg()).unwrap();
    assert_eq!((Some(SECOND), Some(200 * SECOND)), (contract.mint_start_time, contract.mint_end_time));
}

#[test]
fn start_time_cant_be_higher_equal_then_end_time() {
    let mut contract = setup_contract(true, true, None, None);
    let msg = ExecuteMsg::SetMintStartEndTime { start_time: Some(200 * SECOND), end_time: Some(200 * SECOND) };
    assert_eq!(ContractError::InvalidTimestampValues {}, err(execute(&mut contract, &mock_env(), ADMIN, msg)));
    let msg = ExecuteMsg::SetMintStartEndTime { start_time: Some(201 * SECOND), end_time: Some(200 * SECOND) };
    assert_eq!(ContractError::InvalidTimestampValues {}, err(execute(&mut contract, &mock_env(), ADMIN, msg)));
}

#[test]
fn can_burn_their_poap() {
    let mut contract = setup_contract(true, true, None, None);
    let poap_id = contract.generate_poap_id();
    mint(&mut contract, &mock_env(), USER).unwrap();
    assert_poap_minted(&contract, &poap_id, USER);
    assert!(matches!(execute(&mut contract, &mock_env(), USER, ExecuteMsg::Burn { token_id: poap_id }), Ok(Outcome::Forward)));
}

#[test]
fn can_approve_and_revoke() {
    let mut contract = setup_contract(true, true, None, None);
    let poap_id = contract.generate_poap_id();
    mint(&mut contract, &mock_env(), USER).unwrap();
    assert_poap_minted(&contract, &poap_id, USER);
    let approve = ExecuteMsg::Approve { spender: MINTER.to_string(), token_id: poap_id.clone() };
    assert!(matches!(execute(&mut contract, &mock_env(), USER, approve), Ok(Outcome::Forward)));
    let revoke = ExecuteMsg::Revoke { spender: MINTER.to_string(), token_id: poap_id };
    assert!(matches!(execute(&mut contract, &mock_env(), USER, revoke), Ok(Outcome::Forward)));
}

#[test]
fn can_approve_all_and_revoke_all() {
    let mut contract = setup_contract(true, true, None, None);
    let poap_id = contract.generate_poap_id();
    mint(&mut contract, &mock_env(), USER).unwrap();
    assert_poap_minted(&contract, &poap_id, USER);
    let approve = ExecuteMsg::ApproveAll { operator: MINTER.to_string() };
    assert!(matches!(execute(&mut contract, &mock_env(), USER, approve), Ok(Outcome::Forward)));
    let revoke = ExecuteMsg::RevokeAll { operator: MINTER.to_string() };
    assert!(matches!(execute(&mut contract, &mock_env(), USER, revoke), Ok(Outcome::Forward)));
}

#[test]
fn minted_poap_keeps_its_extension() {
    let mut contract = setup_contract(true, true, None, None);
    let claimer = Some("claimer".to_string());
    execute(&mut contract, &mock_env(), USER, ExecuteMsg::Mint { extension: claimer.clone() }).unwrap();
    let msg = ExecuteMsg::MintTo { users: vec!["alice".to_string(), "bob".to_string()], extension: Some("event".to_string()) };
    execute(&mut contract, &mock_env(), ADMIN, msg).unwrap();
    let extensions: Vec<Ext> = contract.tokens.iter().map(|t| t.extension.clone()).collect();
    assert_eq!(vec![claimer, Some("event".to_string()), Some("event".to_string())], extensions);
}

#[test]
fn extension_messages_go_to_the_cw721_contract() {
    let mut contract = setup_contract(true, true, None, None);
    assert!(matches!(execute(&mut contract, &mock_env(), USER, ExecuteMsg::Extension {}), Ok(Outcome::Forward)));
}
