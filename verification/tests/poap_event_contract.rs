use desmos_contracts::chain::{Env, MessageInfo, Response};
use desmos_contracts::coins::StdError;
use desmos_contracts::poap_event::{
    instantiate, ContractError, Cw721InstantiateMsg, EventInfo, EventMsg, EventState, ExecuteMsg, InstantiateMsg,
};

const INITIAL_BLOCK_TIME_SECONDS: u64 = 3600;
const EVENT_START_SECONDS: u64 = INITIAL_BLOCK_TIME_SECONDS + 3600;
const EVENT_END_SECONDS: u64 = EVENT_START_SECONDS + 3600;
const CREATOR: &str = "creator";
const ADMIN: &str = "admin";
const MINTER: &str = "minter";
const USER: &str = "user";
const POAP_URI: &str = "ipfs://poap-uri";
const FAKE_CW721_ADDRESS: &str = "cw721-contract";
const MOCK_TIME: u64 = 1_571_797_419_879_305_533;
const SECOND: u64 = 1_000_000_000;

fn secs(s: u64) -> u64 {
    s * SECOND
}

fn mock_env() -> Env {
    Env { block_height: 12_345, block_time: MOCK_TIME, contract_address: "cosmos2contract".to_string() }
}

fn env_at(time: u64) -> Env {
    Env { block_time: time, ..mock_env() }
}

fn mock_info(sender: &str) -> MessageInfo {
    MessageInfo { sender: sender.to_string(), funds: vec![] }
}

fn validate(addr: &str) -> Result<String, StdError> {
    if addr.len() < 3 {
        Err(StdError::GenericErr { msg: "Invalid input: human address too short".to_string() })
    } else {
        Ok(addr.to_string())
    }
}

fn err<T, E>(r: Result<T, E>) -> E {
    match r {
        Err(e) => e,
        Ok(_) => panic!("an error was expected"),
    }
}

fn get_valid_init_msg(cw721_code_id: u64) -> InstantiateMsg {
    InstantiateMsg {
        admin: ADMIN.to_string(),
        minter: MINTER.to_string(),
        cw721_code_id,
        cw721_instantiate_msg: Cw721InstantiateMsg {
            name: "test-poap".to_string(),
            symbol: "poap".to_string(),
            minter: "".to_string(),
        },
        event_info: EventInfo {
            creator: CREATOR.to_string(),
            start_time: secs(EVENT_START_SECONDS),
            end_time: secs(EVENT_END_SECONDS),
            per_address_limit: 2,
            poap_uri: POAP_URI.to_string(),
        },
    }
}

fn run_instantiate(env: &Env, msg: InstantiateMsg) -> Result<(EventState, Response<EventMsg>), ContractError> {
    let (a, m, c) = (validate(&msg.admin), validate(&msg.minter), validate(&msg.event_info.creator));
    instantiate(env, &mock_info(ADMIN), msg, a, m, c)
}

fn do_instantiate() -> EventState {
    let (mut state, _) = run_instantiate(&env_at(secs(INITIAL_BLOCK_TIME_SECONDS)), get_valid_init_msg(1)).unwrap();
    state.cw721_address = Some(FAKE_CW721_ADDRESS.to_string());
    state
}

fn exec(state: &mut EventState, env: &Env, sender: &str, msg: ExecuteMsg) -> Result<Response<EventMsg>, ContractError> {
    let addr = match &msg {
        ExecuteMsg::MintTo { recipient } => Some(validate(recipient)),
        ExecuteMsg::UpdateAdmin { new_admin } => Some(validate(new_admin)),
        ExecuteMsg::UpdateMinter { new_minter } => Some(validate(new_minter)),
        _ => None,
    };
    state.execute(env, &mock_info(sender), msg, addr)
}

#[test]
fn contract_instantiate_with_invalid_admin_addr_error() {
    let mut init_msg = get_valid_init_msg(1);
    init_msg.admin = "a".to_string();
    assert!(run_instantiate(&mock_env(), init_msg).is_err());
}

#[test]
fn instantiate_with_invalid_minter_addr_error() {
    let mut init_msg = get_valid_init_msg(1);
    init_msg.minter = "a".to_string();
    assert!(run_instantiate(&mock_env(), init_msg).is_err());
}

#[test]
fn instantiate_with_invalid_creator_addr_error() {
    let mut init_msg = get_valid_init_msg(1);
    init_msg.event_info.creator = "a".to_string();
    assert!(run_instantiate(&mock_env(), init_msg).is_err());
}

#[test]
fn instantiate_with_event_start_before_current_time_error() {
    let env = mock_env();
    let mut init_msg = get_valid_init_msg(1);
    let start = env.block_time / SECOND - 200;
    init_msg.event_info.start_time = secs(start);
    init_msg.event_info.end_time = secs(start + 600);
    assert_eq!(
        ContractError::StartTimeBeforeCurrentTime { current_time: env.block_time, start_time: secs(start) },
        err(run_instantiate(&env, init_msg))
    );
}

#[test]
fn instantiate_with_event_start_equal_current_time_error() {
    let env = mock_env();
    let mut init_msg = get_valid_init_msg(1);
    let start = env.block_time;
    init_msg.event_info.start_time = start;
    init_msg.event_info.end_time = start + 600;
    assert_eq!(
        ContractError::StartTimeBeforeCurrentTime { current_time: start, start_time: start },
        err(run_instantiate(&env, init_msg))
    );
}

#[test]
fn instantiate_with_event_end_before_current_time_error() {
    let env = mock_env();
    let mut init_msg = get_valid_init_msg(1);
    let start = env.block_time / SECOND - 200;
    let end = env.block_time / SECOND - 100;
    init_msg.event_info.start_time = secs(start);
    init_msg.event_info.end_time = secs(end);
    assert_eq!(
        ContractError::EndTimeBeforeCurrentTime { current_time: env.block_time, end_time: secs(end) },
        err(run_instantiate(&env, init_msg))
    );
}

#[test]
fn instantiate_with_event_end_equal_current_time_error() {
    let env = mock_env();
    let mut init_msg = get_valid_init_msg(1);
    let start = env.block_time / SECOND - 200;
    let end = env.block_time;
    init_msg.event_info.start_time = secs(start);
    init_msg.event_info.end_time = end;
    assert_eq!(
        ContractError::EndTimeBeforeCurrentTime { current_time: end, end_time: end },
        err(run_instantiate(&env, init_msg))
    );
}

#[test]
fn instantiate_with_event_start_after_end_error() {
    let env = mock_env();
    let mut init_msg = get_valid_init_msg(1);
    let start = env.block_time / SECOND + 200;
    let end = env.block_time / SECOND + 100;
    init_msg.event_info.start_time = secs(start);
    init_msg.event_info.end_time = secs(end);
    assert_eq!(
        ContractError::StartTimeAfterEndTime { start: secs(start), end: secs(end) },
        err(run_instantiate(&env, init_msg))
    );
}

#[test]
fn instantiate_with_event_start_equal_end_error() {
    let env = mock_env();
    let mut init_msg = get_valid_init_msg(1);
    let start = env.block_time / SECOND + 200;
    init_msg.event_info.start_time = secs(start);
    init_msg.event_info.end_time = secs(start);
    assert_eq!(
        ContractError::StartTimeAfterEndTime { start: secs(start), end: secs(start) },
        err(run_instantiate(&env, init_msg))
    );
}

#[test]
fn contract_instantiate_with_invalid_poap_uri_error() {
    let mut init_msg = get_valid_init_msg(1);
    init_msg.event_info.poap_uri = "invalid_uri".to_string();
    assert!(run_instantiate(&env_at(secs(INITIAL_BLOCK_TIME_SECONDS)), init_msg).is_err());
}

#[test]
fn contract_instantiate_with_non_ipfs_poap_uri_error() {
    let mut init_msg = get_valid_init_msg(1);
    init_msg.event_info.poap_uri = "https://random_domain.com".to_string();
    assert_eq!(ContractError::InvalidPoapUri {}, err(run_instantiate(&env_at(secs(INITIAL_BLOCK_TIME_SECONDS)), init_msg)));
}

#[test]
fn instantiate_properly_asks_for_the_cw721_contract() {
    let (state, resp) = run_instantiate(&env_at(secs(INITIAL_BLOCK_TIME_SECONDS)), get_valid_init_msg(7)).unwrap();
    assert_eq!(false, state.config.mint_enabled);
    assert_eq!(1, state.next_poap_id);
    assert_eq!(
        vec![EventMsg::InstantiateCw721 {
            code_id: 7,
            name: "test-poap".to_string(),
            symbol: "poap".to_string(),
            minter: "cosmos2contract".to_string(),
            funds: vec![],
            label: "poap_cw721".to_string(),
        }],
        resp.messages
    );
    let start = resp.attributes.iter().find(|a| a.key == "start_time").unwrap();
    assert_eq!("7200.000000000", start.value);
}

#[test]
fn enable_mint_properly() {
    let mut state = do_instantiate();
    exec(&mut state, &mock_env(), ADMIN, ExecuteMsg::EnableMint {}).unwrap();
    assert_eq!(true, state.config.mint_enabled);
}

#[test]
fn enable_mint_without_permission_error() {
    let mut state = do_instantiate();
    assert_eq!(ContractError::Unauthorized {}, err(exec(&mut state, &mock_env(), USER, ExecuteMsg::EnableMint {})));
}

#[test]
fn disable_mint_properly() {
    let mut state = do_instantiate();
    exec(&mut state, &mock_env(), ADMIN, ExecuteMsg::DisableMint {}).unwrap();
    assert_eq!(false, state.config.mint_enabled);
}

#[test]
fn normal_user_can_not_disable_mint_error() {
    let mut state = do_instantiate();
    assert_eq!(ContractError::Unauthorized {}, err(exec(&mut state, &mock_env(), USER, ExecuteMsg::DisableMint {})));
}

#[test]
fn creator_change_event_info_properly() {
    let mut state = do_instantiate();
    let new_start_time = secs(MOCK_TIME / SECOND + 100);
    let new_end_time = secs(MOCK_TIME / SECOND + 400);
    let env = env_at(secs(INITIAL_BLOCK_TIME_SECONDS));
    let msg = ExecuteMsg::UpdateEventInfo { start_time: new_start_time, end_time: new_end_time };
    exec(&mut state, &env, CREATOR, msg).unwrap();
    assert_eq!(new_start_time, state.event.start_time);
    assert_eq!(new_end_time, state.event.end_time);
}

#[test]
fn non_creator_change_event_info_error() {
    let mut state = do_instantiate();
    let start = secs(MOCK_TIME / SECOND + 100);
    let end = secs(MOCK_TIME / SECOND + 400);
    let result = exec(&mut state, &mock_env(), USER, ExecuteMsg::UpdateEventInfo { start_time: start, end_time: end });
    assert_eq!(ContractError::Unauthorized {}, err(result));
    let result = exec(&mut state, &mock_env(), ADMIN, ExecuteMsg::UpdateEventInfo { start_time: start, end_time: end });
    assert_eq!(ContractError::Unauthorized {}, err(result));
}

#[test]
fn event_info_update_after_event_started_error() {
    let mut state = do_instantiate();
    let msg = || ExecuteMsg::UpdateEventInfo { start_time: secs(EVENT_START_SECONDS), end_time: secs(EVENT_END_SECONDS) };
    let now = secs(EVENT_START_SECONDS + 100);
    assert_eq!(
        ContractError::EventStarted { start_time: secs(EVENT_START_SECONDS), current_time: now },
        err(exec(&mut state, &env_at(now), CREATOR, msg()))
    );
    let now = secs(EVENT_START_SECONDS);
    assert_eq!(
        ContractError::EventStarted { start_time: secs(EVENT_START_SECONDS), current_time: now },
        err(exec(&mut state, &env_at(now), CREATOR, msg()))
    );
}

#[test]
fn event_info_update_after_event_terminated_error() {
    let mut state = do_instantiate();
    let msg = || ExecuteMsg::UpdateEventInfo { start_time: secs(EVENT_START_SECONDS), end_time: secs(EVENT_END_SECONDS + 300) };
    let now = secs(EVENT_END_SECONDS + 100);
    assert_eq!(
        ContractError::EventTerminated { end_time: secs(EVENT_END_SECONDS), current_time: now },
        err(exec(&mut state, &env_at(now), CREATOR, msg()))
    );
    let now = secs(EVENT_END_SECONDS);
    assert_eq!(
        ContractError::EventTerminated { end_time: secs(EVENT_END_SECONDS), current_time: now },
        err(exec(&mut state, &env_at(now), CREATOR, msg()))
    );
}

#[test]
fn event_info_update_properly() {
    let mut state = do_instantiate();
    let msg = ExecuteMsg::UpdateEventInfo { start_time: secs(EVENT_START_SECONDS), end_time: secs(EVENT_END_SECONDS + 300) };
    exec(&mut state, &env_at(secs(EVENT_START_SECONDS - 100)), CREATOR, msg).unwrap();
    assert_eq!(secs(EVENT_END_SECONDS + 300), state.event.end_time);
}

fn update_at_initial_time(start: u64, end: u64) -> ContractError {
    let mut state = do_instantiate();
    let msg = ExecuteMsg::UpdateEventInfo { start_time: secs(start), end_time: secs(end) };
    err(exec(&mut state, &env_at(secs(INITIAL_BLOCK_TIME_SECONDS)), CREATOR, msg))
}

#[test]
fn event_info_start_time_equal_end_time_error() {
    assert_eq!(
        ContractError::StartTimeAfterEndTime { start: secs(EVENT_START_SECONDS), end: secs(EVENT_START_SECONDS) },
        update_at_initial_time(EVENT_START_SECONDS, EVENT_START_SECONDS)
    );
}

#[test]
fn event_info_start_time_after_end_time_error() {
    assert_eq!(
        ContractError::StartTimeAfterEndTime { start: secs(EVENT_START_SECONDS + 100), end: secs(EVENT_START_SECONDS) },
        update_at_initial_time(EVENT_START_SECONDS + 100, EVENT_START_SECONDS)
    );
}

#[test]
fn event_info_start_time_before_current_time_error() {
    assert_eq!(
        ContractError::StartTimeBeforeCurrentTime {
            start_time: secs(INITIAL_BLOCK_TIME_SECONDS - 1),
            current_time: secs(INITIAL_BLOCK_TIME_SECONDS)
        },
        update_at_initial_time(INITIAL_BLOCK_TIME_SECONDS - 1, EVENT_END_SECONDS)
    );
}

#[test]
fn event_info_start_time_equal_current_time_error() {
    assert_eq!(
        ContractError::StartTimeBeforeCurrentTime {
            start_time: secs(INITIAL_BLOCK_TIME_SECONDS),
            current_time: secs(INITIAL_BLOCK_TIME_SECONDS)
        },
        update_at_initial_time(INITIAL_BLOCK_TIME_SECONDS, EVENT_END_SECONDS)
    );
}

#[test]
fn event_info_end_time_before_current_time_error() {
    assert_eq!(
        ContractError::StartTimeAfterEndTime {
            start: secs(INITIAL_BLOCK_TIME_SECONDS + 2),
            end: secs(INITIAL_BLOCK_TIME_SECONDS - 1)
        },
        update_at_initial_time(INITIAL_BLOCK_TIME_SECONDS + 2, INITIAL_BLOCK_TIME_SECONDS - 1)
    );
}

#[test]
fn event_info_end_time_equal_current_time_error() {
    assert_eq!(
        ContractError::StartTimeAfterEndTime {
            start: secs(INITIAL_BLOCK_TIME_SECONDS + 2),
            end: secs(INITIAL_BLOCK_TIME_SECONDS)
        },
        update_at_initial_time(INITIAL_BLOCK_TIME_SECONDS + 2, INITIAL_BLOCK_TIME_SECONDS)
    );
}

#[test]
fn contract_update_admin_without_permission_error() {
    let mut state = do_instantiate();
    let msg = || ExecuteMsg::UpdateAdmin { new_admin: "admin2".to_string() };
    assert_eq!(ContractError::Unauthorized {}, err(exec(&mut state, &mock_env(), USER, msg())));
    assert_eq!(ContractError::Unauthorized {}, err(exec(&mut state, &mock_env(), CREATOR, msg())));
}

#[test]
fn update_admin_with_permission_properly() {
    let mut state = do_instantiate();
    exec(&mut state, &mock_env(), ADMIN, ExecuteMsg::UpdateAdmin { new_admin: "admin2".to_string() }).unwrap();
    assert_eq!("admin2", state.config.admin.as_str());
}

#[test]
fn update_minter_permission_error() {
    let mut state = do_instantiate();
    let msg = || ExecuteMsg::UpdateMinter { new_minter: "minter2".to_string() };
    assert_eq!(ContractError::Unauthorized {}, err(exec(&mut state, &mock_env(), USER, msg())));
    assert_eq!(ContractError::Unauthorized {}, err(exec(&mut state, &mock_env(), CREATOR, msg())));
    assert_eq!(ContractError::Unauthorized {}, err(exec(&mut state, &mock_env(), MINTER, msg())));
}

#[test]
fn update_minter_with_permission_properly() {
    let mut state = do_instantiate();
    exec(&mut state, &mock_env(), ADMIN, ExecuteMsg::UpdateMinter { new_minter: "minter2".to_string() }).unwrap();
    assert_eq!("minter2", state.config.minter.as_str());
}

#[test]
fn mint_with_event_not_started_error() {
    let mut state = do_instantiate();
    let env = env_at(secs(INITIAL_BLOCK_TIME_SECONDS));
    exec(&mut state, &env, ADMIN, ExecuteMsg::EnableMint {}).unwrap();
    assert_eq!(
        ContractError::EventNotStarted { current_time: env.block_time, start_time: secs(EVENT_START_SECONDS) },
        err(exec(&mut state, &env, USER, ExecuteMsg::Mint {}))
    );
}

#[test]
fn mint_with_event_terminated_error() {
    let mut state = do_instantiate();
    exec(&mut state, &mock_env(), ADMIN, ExecuteMsg::EnableMint {}).unwrap();
    let env = env_at(secs(EVENT_END_SECONDS));
    assert_eq!(
        ContractError::EventTerminated { current_time: env.block_time, end_time: secs(EVENT_END_SECONDS) },
        err(exec(&mut state, &env, USER, ExecuteMsg::Mint {}))
    );
}

#[test]
fn mint_without_permissions_error() {
    let mut state = do_instantiate();
    let env = env_at(secs(EVENT_START_SECONDS));
    assert_eq!(ContractError::MintDisabled {}, err(exec(&mut state, &env, USER, ExecuteMsg::Mint {})));
}

#[test]
fn mint_out_of_max_amount_error() {
    let mut state = do_instantiate();
    let env = env_at(secs(EVENT_START_SECONDS));
    exec(&mut state, &env, ADMIN, ExecuteMsg::EnableMint {}).unwrap();
    exec(&mut state, &env, USER, ExecuteMsg::Mint {}).unwrap();
    exec(&mut state, &env, USER, ExecuteMsg::Mint {}).unwrap();
    assert_eq!(
        ContractError::MaxPerAddressLimitExceeded { recipient_addr: USER.to_string() },
        err(exec(&mut state, &env, USER, ExecuteMsg::Mint {}))
    );
    assert_eq!(
        ContractError::MaxPerAddressLimitExceeded { recipient_addr: USER.to_string() },
        err(exec(&mut state, &env, ADMIN, ExecuteMsg::MintTo { recipient: USER.to_string() }))
    );
}

#[test]
fn mint_to_out_of_max_amount_error() {
    let mut state = do_instantiate();
    let env = env_at(secs(EVENT_START_SECONDS));
    exec(&mut state, &env, ADMIN, ExecuteMsg::EnableMint {}).unwrap();
    exec(&mut state, &env, ADMIN, ExecuteMsg::MintTo { recipient: USER.to_string() }).unwrap();
    exec(&mut state, &env, ADMIN, ExecuteMsg::MintTo { recipient: USER.to_string() }).unwrap();
    assert_eq!(
        ContractError::MaxPerAddressLimitExceeded { recipient_addr: USER.to_string() },
        err(exec(&mut state, &env, ADMIN, ExecuteMsg::MintTo { recipient: USER.to_string() }))
    );
    assert_eq!(
        ContractError::MaxPerAddressLimitExceeded { recipient_addr: USER.to_string() },
        err(exec(&mut state, &env, USER, ExecuteMsg::Mint {}))
    );
}

#[test]
fn mint_to_without_permission_error() {
    let mut state = do_instantiate();
    let env = env_at(secs(EVENT_START_SECONDS));
    assert_eq!(
        ContractError::Unauthorized {},
        err(exec(&mut state, &env, USER, ExecuteMsg::MintTo { recipient: USER.to_string() }))
    );
}

#[test]
fn mint_to_from_minter_properly() {
    let mut state = do_instantiate();
    let env = env_at(secs(EVENT_START_SECONDS));
    let resp = exec(&mut state, &env, MINTER, ExecuteMsg::MintTo { recipient: USER.to_string() }).unwrap();
    assert_eq!(
        vec![EventMsg::MintPoap {
            contract: FAKE_CW721_ADDRESS.to_string(),
            token_id: "1".to_string(),
            owner: USER.to_string(),
            token_uri: POAP_URI.to_string(),
            claimer: USER.to_string(),
        }],
        resp.messages
    );
    assert_eq!(1, state.minted_of(&USER.to_string()));
}

#[test]
fn mint_to_from_admin_properly() {
    let mut state = do_instantiate();
    let env = env_at(secs(EVENT_START_SECONDS));
    exec(&mut state, &env, ADMIN, ExecuteMsg::MintTo { recipient: USER.to_string() }).unwrap();
    assert_eq!(2, state.next_poap_id);
}

#[test]
fn poap_event_integration_instantiate_with_failing_cw721_contract_error() {
    let (mut state, _) = run_instantiate(&env_at(secs(INITIAL_BLOCK_TIME_SECONDS)), get_valid_init_msg(1)).unwrap();
    let failed = desmos_contracts::chain::Reply { id: 1, result: Err("cw721 initialization failed".to_string()) };
    assert_eq!(ContractError::InstantiateCw721Error {}, err(state.reply(failed)));
    assert_eq!(None, state.cw721_address);
}

#[test]
fn reply_records_cw721_address() {
    let (mut state, _) = run_instantiate(&env_at(secs(INITIAL_BLOCK_TIME_SECONDS)), get_valid_init_msg(1)).unwrap();
    let address = b"cw721_address";
    let mut data = vec![0x0a, address.len() as u8];
    data.extend_from_slice(address);
    state.reply(desmos_contracts::chain::Reply { id: 1, result: Ok(Some(data)) }).unwrap();
    assert_eq!(Some("cw721_address".to_string()), state.cw721_address);
}

#[test]
fn record_cw721_address_from_decoded_reply() {
    let mut state = do_instantiate();
    let parse_failure = desmos_contracts::chain::ParseReplyError::ParseFailure("bad data".to_string());
    assert_eq!(ContractError::InstantiateCw721Error {}, err(state.record_cw721_address(Err(parse_failure))));
    assert_eq!(Some(FAKE_CW721_ADDRESS.to_string()), state.cw721_address);
    state.record_cw721_address(Ok("other_cw721".to_string())).unwrap();
    assert_eq!(Some("other_cw721".to_string()), state.cw721_address);
}

#[test]
fn instantiate_validation_by_scheme() {
    let msg = get_valid_init_msg(1);
    assert_eq!(Ok(()), msg.validate_with_scheme(Some("ipfs".to_string())));
    assert_eq!(Err(ContractError::InvalidPoapUri {}), msg.validate_with_scheme(Some("https".to_string())));
    assert_eq!(Err(ContractError::InvalidPoapUri {}), msg.validate_with_scheme(None));
    let mut no_limit = get_valid_init_msg(1);
    no_limit.event_info.per_address_limit = 0;
    assert_eq!(Err(ContractError::InvalidPerAddressLimit {}), no_limit.validate_with_scheme(Some("ipfs".to_string())));
}
