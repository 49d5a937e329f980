use desmos_contracts::chain::{Env, MessageInfo};
use desmos_contracts::coins::StdError;
use desmos_contracts::poap::Outcome;
use desmos_contracts::poap_v2::{ContractError, ExecuteMsg, InstantiateMsg, PoapContract, QueryMsg, QueryResponse};

/// The extension that the tests mint POAPs with.
type Ext = Option<String>;

const ADMIN: &str = "admin";
const MINTER: &str = "minter";
const USER: &str = "user";
const METADATA_URI: &str = "ipfs://poap-metadata";
const SECOND: u64 = 1_000_000_000;

fn mock_env() -> Env {
    Env { block_height: 12_345, block_time: 1_571_797_419_879_305_533, contract_address: "cosmos2contract".to_string() }
}

fn mock_env_with_time(seconds: u64) -> Env {
    Env { block_time: seconds * SECOND, ..mock_env() }
}

fn mock_info(sender: &str) -> MessageInfo {
    MessageInfo { sender: sender.to_string(), funds: vec![] }
}

fn instantiate(sender: &str, admin: Option<&str>, minter: Option<&str>, is_mintable: bool, start: Option<u64>, end: Option<u64>)
    -> PoapContract<Ext> {
    let msg = InstantiateMsg {
        name: "Test POAP".to_string(),
        symbol: "TPOAP".to_string(),
        admin: admin.map(|a| a.to_string()),
        metadata_uri: METADATA_URI.to_string(),
        minter: minter.map(|m| m.to_string()),
        is_transferable: true,
        is_mintable,
        mint_start_time: start.map(|s| s * SECOND),
        mint_end_time: end.map(|e| e * SECOND),
    };
    let owner = Ok(admin.unwrap_or(sender).to_string());
    let minter_addr = minter.map(|m| Ok(m.to_string()));
    let (contract, resp) = PoapContract::instantiate(&mock_info(sender), msg, owner, minter_addr).unwrap();
    assert_eq!(0, resp.messages.len());
    contract
}

fn setup_contract(is_mintable: bool, start: Option<u64>, end: Option<u64>) -> PoapContract<Ext> {
    instantiate(ADMIN, Some(ADMIN), Some(MINTER), is_mintable, start, end)
}

fn mint(contract: &mut PoapContract<Ext>, env: &Env, sender: &str) -> Result<Outcome, ContractError> {
    contract.execute(env, &mock_info(sender), ExecuteMsg::Mint { extension: None }, Vec::<Result<String, StdError>>::new())
}

fn assert_poap_minted(contract: &PoapContract<Ext>, poap_id: &str, owner: &str) {
    let token = contract.tokens.iter().find(|t| t.token_id == poap_id).expect("the poap was minted");
    assert_eq!(Some(METADATA_URI.to_string()), token.token_uri);
    assert_eq!(owner, token.owner);
}

#[test]
fn poap_v2_contract_tests_proper_instantiation_without_admin_and_minter() {
    let contract = instantiate(ADMIN, None, None, true, None, None);
    assert_eq!(QueryResponse::Minter { minter: Some(ADMIN.to_string()) }, contract.query(QueryMsg::Minter {}));
    assert_eq!(Some(ADMIN.to_string()), contract.owner);
}

#[test]
fn poap_v2_contract_tests_proper_instantiation_without_minter() {
    let contract = instantiate(ADMIN, Some(ADMIN), None, true, None, None);
    assert_eq!(QueryResponse::Minter { minter: Some(ADMIN.to_string()) }, contract.query(QueryMsg::Minter {}));
    assert_eq!(Some(ADMIN.to_string()), contract.owner);
}

#[test]
fn poap_v2_contract_tests_proper_instantiation() {
    let contract = instantiate(ADMIN, Some(ADMIN), Some(MINTER), true, None, None);
    assert_eq!(QueryResponse::Minter { minter: Some(MINTER.to_string()) }, contract.query(QueryMsg::Minter {}));
    assert_eq!(Some(ADMIN.to_string()), contract.owner);
}

#[test]
fn poap_v2_contract_tests_user_can_mint_if_mintable() {
    let mut contract = setup_contract(true, None, None);
    let poap_id = format!("{}", contract.token_count);
    mint(&mut contract, &mock_env(), USER).unwrap();
    assert_poap_minted(&contract, &poap_id, USER);
}

#[test]
fn poap_v2_contract_tests_user_cant_mint_if_not_mintable() {
    let mut contract = setup_contract(false, None, None);
    assert_eq!(ContractError::MintDisabled {}, mint(&mut contract, &mock_env(), USER).err().unwrap());
}

#[test]
fn poap_v2_contract_tests_user_can_mint_after_start_time() {
    let mut contract = setup_contract(true, Some(200), None);
    let poap_id = format!("{}", contract.token_count);
    mint(&mut contract, &mock_env_with_time(200), USER).unwrap();
    assert_poap_minted(&contract, &poap_id, USER);
}

#[test]
fn poap_v2_contract_tests_user_cant_mint_before_start_time() {
    let mut contract = setup_contract(true, Some(200), None);
    assert_eq!(ContractError::EventNotStarted {}, mint(&mut contract, &mock_env_with_time(199), USER).err().unwrap());
}

#[test]
fn poap_v2_contract_tests_user_can_mint_before_end_time() {
    let mut contract = setup_contract(true, None, Some(200));
    let poap_id = format!("{}", contract.token_count);
    mint(&mut contract, &mock_env_with_time(199), USER).unwrap();
    assert_poap_minted(&contract, &poap_id, USER);
}

#[test]
fn poap_v2_contract_tests_user_cant_mint_after_end_time() {
    let mut contract = setup_contract(true, None, Some(200));
    assert_eq!(ContractError::EventTerminated {}, mint(&mut contract, &mock_env_with_time(200), USER).err().unwrap());
}

#[test]
fn poap_v2_contract_tests_user_can_mint_during_mint_time() {
    let mut contract = setup_contract(true, Some(100), Some(200));
    let poap_id = format!("{}", contract.token_count);
    mint(&mut contract, &mock_env_with_time(150), USER).unwrap();
    assert_poap_minted(&contract, &poap_id, USER);
}

#[test]
fn poap_v2_contract_tests_user_cant_mint_outside_mint_time() {
    let mut contract = setup_contract(true, Some(100), Some(200));
    assert!(mint(&mut contract, &mock_env_with_time(99), USER).is_err());
    assert!(mint(&mut contract, &mock_env_with_time(200), USER).is_err());
}

#[test]
fn poap_v2_minter_mints_any_time_and_many() {
    let mut contract = setup_contract(false, Some(100), Some(200));
    mint(&mut contract, &mock_env_with_time(10), MINTER).unwrap();
    mint(&mut contract, &mock_env_with_time(300), MINTER).unwrap();
    assert_poap_minted(&contract, "0", MINTER);
    assert_poap_minted(&contract, "1", MINTER);
}

#[test]
fn poap_v2_only_minter_mints_to_others() {
    let mut contract = setup_contract(true, None, None);
    let users = vec![USER.to_string()];
    let addrs = vec![Ok(USER.to_string())];
    let err = contract.execute(&mock_env(), &mock_info(ADMIN), ExecuteMsg::MintTo { users: users.clone(), extension: None }, addrs).err().unwrap();
    assert_eq!(ContractError::MintUnauthorized {}, err);
    contract.execute(&mock_env(), &mock_info(MINTER), ExecuteMsg::MintTo { users, extension: None }, vec![Ok(USER.to_string())]).unwrap();
    assert_poap_minted(&contract, "0", USER);
}

#[test]
fn poap_v2_minted_poap_keeps_its_extension() {
    let mut contract = setup_contract(true, None, None);
    let claimer = Some("claimer".to_string());
    contract.execute(&mock_env(), &mock_info(USER), ExecuteMsg::Mint { extension: claimer.clone() }, Vec::<Result<String, StdError>>::new()).unwrap();
    let token = contract.tokens.iter().find(|t| t.token_id == "0").expect("the poap was minted");
    assert_eq!(claimer, token.extension);
}
