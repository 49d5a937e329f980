use cosmwasm_std::Decimal;
use desmos_contracts::chain::{Attribute, BankSend, Env, MessageInfo, Response};
use desmos_contracts::coins::{Coin, StdError};
use desmos_contracts::tips::{
    execute, instantiate, query, query_post_tips, query_received_tips, query_sent_tips, ContractError, ExecuteMsg,
    InstantiateMsg, QueryMsg, QueryResponse, ServiceFee, StateServiceFee, Target, Tip, TipsResponse, TipsState,
    MAX_TIPS_HISTORY_SIZE,
};

const ADMIN: &str = "admin";
const USER_1: &str = "user1";
const USER_2: &str = "user2";
const USER_3: &str = "user3";
const POST_AUTHOR: &str = "desmos1nwp8gxrnmrsrzjdhvk47vvmthzxjtphgxp5ftc";
const HEIGHT: u64 = 12_345;

fn coin(amount: u128, denom: &str) -> Coin {
    Coin { denom: denom.to_string(), amount }
}

fn mock_env() -> Env {
    Env { block_height: HEIGHT, block_time: 1_571_797_419_879_305_533, contract_address: "cosmos2contract".to_string() }
}

fn mock_info(sender: &str, funds: &[Coin]) -> MessageInfo {
    MessageInfo { sender: sender.to_string(), funds: funds.to_vec() }
}

/// The answer of the mock chain API to the validation of an address.
fn validate(addr: &str) -> Result<String, StdError> {
    if addr.len() < 3 {
        Err(StdError::GenericErr { msg: "Invalid input: human address too short".to_string() })
    } else {
        Ok(addr.to_string())
    }
}

fn err<T, E>(r: Result<T, E>) -> E {
    match r {
        Err(e) => e,
        Ok(_) => panic!("an error was expected"),
    }
}

fn percent(value: u32) -> u128 {
    Decimal::from_atomics(value, 0).unwrap().atomics().u128()
}

fn init_contract(
    subspace_id: u64,
    service_fee: Option<ServiceFee>,
    tips_history_size: u32,
) -> Result<(TipsState, Response<BankSend>), ContractError> {
    instantiate(
        &mock_info(ADMIN, &[]),
        InstantiateMsg { admin: ADMIN.to_string(), subspace_id, service_fee, tips_history_size },
        validate(ADMIN),
        Ok(()),
    )
}

fn fixed(amount: &[Coin]) -> Option<ServiceFee> {
    Some(ServiceFee::Fixed { amount: amount.to_vec() })
}

fn tip_user(
    state: &mut TipsState,
    from: &str,
    to: &str,
    funds: &[Coin],
    coins: &[Coin],
) -> Result<Response<BankSend>, ContractError> {
    let msg = ExecuteMsg::SendTip { target: Target::UserTarget { receiver: to.to_string() }, amount: coins.to_vec() };
    execute(state, &mock_env(), &mock_info(from, funds), msg, validate(to), vec![])
}

fn tip_post(
    state: &mut TipsState,
    from: &str,
    post_id: u64,
    funds: &[Coin],
    coins: &[Coin],
) -> Result<Response<BankSend>, ContractError> {
    let msg = ExecuteMsg::SendTip { target: Target::ContentTarget { post_id }, amount: coins.to_vec() };
    execute(state, &mock_env(), &mock_info(from, funds), msg, Ok(POST_AUTHOR.to_string()), vec![])
}

fn admin_execute(state: &mut TipsState, sender: &str, msg: ExecuteMsg, lookup: Result<String, StdError>)
    -> Result<Response<BankSend>, ContractError> {
    execute(state, &mock_env(), &mock_info(sender, &[]), msg, lookup, vec![])
}

fn get_user_sent_tips(state: &TipsState, addr: &str) -> Vec<Tip> {
    query_sent_tips(state, Ok(addr.to_string())).unwrap().tips
}

fn get_user_received_tips(state: &TipsState, addr: &str) -> Vec<Tip> {
    query_received_tips(state, Ok(addr.to_string())).unwrap().tips
}

fn get_post_tips(state: &TipsState, post_id: u64, post_author: &str) -> Vec<Tip> {
    query_post_tips(state, post_id, Ok(post_author.to_string())).unwrap().tips
}

fn tip(sender: &str, receiver: &str, amount: u128, post_id: Option<u64>) -> Tip {
    Tip {
        sender: sender.to_string(),
        receiver: receiver.to_string(),
        amount: vec![coin(amount, "udsm")],
        post_id,
        block_height: HEIGHT,
    }
}

#[test]
fn init_contract_with_invalid_subspace_id() {
    let init_err = err(init_contract(0, fixed(&[]), 1));
    assert_eq!(ContractError::InvalidSubspaceId {}, init_err);
}

#[test]
fn init_contract_with_invalid_tips_history_size() {
    let init_err = err(init_contract(1, None, MAX_TIPS_HISTORY_SIZE + 1));
    assert_eq!(
        ContractError::InvalidTipsHistorySize { value: MAX_TIPS_HISTORY_SIZE + 1, max: MAX_TIPS_HISTORY_SIZE },
        init_err
    );
}

#[test]
fn init_contract_with_non_existing_subspace() {
    let error = StdError::GenericErr { msg: "Querier system error: Cannot parse request: subspace not found in: ".to_string() };
    let init_err = err(instantiate(
        &mock_info(ADMIN, &[]),
        InstantiateMsg { admin: ADMIN.to_string(), subspace_id: 2, service_fee: fixed(&[coin(42, "dsm")]), tips_history_size: 1 },
        validate(ADMIN),
        Err(error.duplicate()),
    ));
    assert_eq!(ContractError::SubspaceNotExist { id: 2, error }, init_err);
}

#[test]
fn init_contract_with_empty_fixed_service_fees() {
    assert_eq!(ContractError::EmptyFixedFee {}, err(init_contract(2, fixed(&[]), 1)));
}

#[test]
fn init_contract_with_invalid_zero_fee_coin() {
    assert_eq!(ContractError::ZeroFeeCoin { denom: "udsm".to_string() }, err(init_contract(2, fixed(&[coin(0, "udsm")]), 1)));
}

#[test]
fn init_contract_with_invalid_percentage_service_fees() {
    let init_err = err(init_contract(2, Some(ServiceFee::Percentage { value: percent(100) }), 1));
    assert_eq!(ContractError::InvalidPercentageFee {}, init_err);
}

#[test]
fn init_contract_properly() {
    let (state, resp) = init_contract(1, fixed(&[coin(42, "udsm")]), 1).unwrap();
    assert_eq!(Some(StateServiceFee::Fixed { amount: vec![coin(42, "udsm")] }), state.config.service_fee);
    let expected: Vec<Attribute> = [
        ("action", "instantiate"),
        ("sender", ADMIN),
        ("admin", ADMIN),
        ("subspace_id", "1"),
        ("tips_record_size", "1"),
    ]
    .iter()
    .map(|(k, v)| Attribute { key: k.to_string(), value: v.to_string() })
    .collect();
    assert_eq!(expected, resp.attributes);
}

#[test]
fn init_contract_without_service_fee_properly() {
    let (state, _) = init_contract(1, None, 1).unwrap();
    assert_eq!(None, state.config.service_fee);
}

#[test]
fn tip_user_with_invalid_address() {
    let (mut state, _) = init_contract(1, None, 5).unwrap();
    let tip_error = err(tip_user(&mut state, USER_1, "a", &[coin(5000, "udsm")], &[coin(5000, "udsm")]));
    assert_eq!(
        ContractError::Std(StdError::GenericErr { msg: "Invalid input: human address too short".to_string() }),
        tip_error
    );
}

#[test]
fn tip_with_empty_funds() {
    let (mut state, _) = init_contract(1, None, 5).unwrap();
    let tip_error = err(tip_user(&mut state, USER_1, USER_2, &[], &[coin(5000, "udsm")]));
    assert_eq!(ContractError::EmptyFunds {}, tip_error);
}

#[test]
fn tip_to_yourself() {
    let (mut state, _) = init_contract(1, fixed(&[coin(100, "udsm")]), 5).unwrap();
    let tip_error = err(tip_user(&mut state, USER_1, USER_1, &[coin(1100, "udsm")], &[coin(1000, "udsm")]));
    assert_eq!(ContractError::SenderEqReceiver {}, tip_error);
}

#[test]
fn tip_user_with_missing_fee_coin() {
    let (mut state, _) = init_contract(1, fixed(&[coin(100, "udsm"), coin(100, "uatom")]), 5).unwrap();
    let tip_error = err(tip_user(&mut state, USER_1, USER_2, &[coin(5100, "udsm")], &[coin(5000, "udsm")]));
    assert_eq!(
        ContractError::InsufficientAmount { denom: "uatom".to_string(), requested: 100, provided: 0 },
        tip_error
    );
}

#[test]
fn tip_user_with_insufficient_amount() {
    let (mut state, _) = init_contract(1, fixed(&[coin(5000, "udsm")]), 5).unwrap();
    let tip_error = err(tip_user(&mut state, USER_1, USER_2, &[coin(5999, "udsm")], &[coin(1000, "udsm")]));
    assert_eq!(
        ContractError::InsufficientAmount { denom: "udsm".to_string(), requested: 6000, provided: 5999 },
        tip_error
    );
}

#[test]
fn tip_user_with_zero_fees_properly() {
    let (mut state, _) = init_contract(1, None, 5).unwrap();
    let resp = tip_user(&mut state, USER_1, USER_2, &[coin(5000, "udsm")], &[coin(5000, "udsm")]).unwrap();
    assert_eq!(vec![BankSend { to_address: USER_2.to_string(), amount: vec![coin(5000, "udsm")] }], resp.messages);
    let sent_tip = tip(USER_1, USER_2, 5000, None);
    assert_eq!(vec![sent_tip.duplicate()], get_user_sent_tips(&state, USER_1));
    assert_eq!(vec![sent_tip], get_user_received_tips(&state, USER_2));
}

#[test]
fn tip_user_with_fixed_fees_properly() {
    let (mut state, _) = init_contract(1, fixed(&[coin(1000, "udsm")]), 5).unwrap();
    tip_user(&mut state, USER_1, USER_2, &[coin(5000, "udsm")], &[coin(4000, "udsm")]).unwrap();
    let sent_tip = tip(USER_1, USER_2, 4000, None);
    assert_eq!(vec![sent_tip.duplicate()], get_user_sent_tips(&state, USER_1));
    assert_eq!(vec![sent_tip], get_user_received_tips(&state, USER_2));
}

#[test]
fn tip_user_with_percentage_fees_properly() {
    let (mut state, _) = init_contract(1, Some(ServiceFee::Percentage { value: percent(1) }), 5).unwrap();
    tip_user(&mut state, USER_1, USER_2, &[coin(5000, "udsm")], &[coin(4950, "udsm")]).unwrap();
    let sent_tip = tip(USER_1, USER_2, 4950, None);
    assert_eq!(vec![sent_tip.duplicate()], get_user_sent_tips(&state, USER_1));
    assert_eq!(vec![sent_tip], get_user_received_tips(&state, USER_2));
}

#[test]
fn tip_user_with_percentage_fees_insufficient_funds() {
    let (mut state, _) = init_contract(1, Some(ServiceFee::Percentage { value: percent(1) }), 5).unwrap();
    let e = err(tip_user(&mut state, USER_1, USER_2, &[coin(5000, "udsm")], &[coin(5000, "udsm")]));
    assert_eq!(ContractError::InsufficientAmount { denom: "udsm".to_string(), requested: 5050, provided: 5000 }, e);
}

#[test]
fn tip_post_with_invalid_post_id() {
    let (mut state, _) = init_contract(1, fixed(&[coin(100, "udsm")]), 5).unwrap();
    let tip_error = err(tip_post(&mut state, USER_1, 0, &[coin(5000, "udsm")], &[coin(4900, "udsm")]));
    assert_eq!(ContractError::InvalidPostId {}, tip_error);
}

#[test]
fn tip_post_with_non_existing_post_id() {
    let (mut state, _) = init_contract(1, fixed(&[coin(100, "udsm")]), 5).unwrap();
    let msg = ExecuteMsg::SendTip { target: Target::ContentTarget { post_id: 1 }, amount: vec![coin(4900, "udsm")] };
    let not_found = Err(StdError::GenericErr { msg: "post not found".to_string() });
    let tip_error = err(execute(&mut state, &mock_env(), &mock_info(USER_1, &[coin(5000, "udsm")]), msg, not_found, vec![]));
    assert_eq!(ContractError::PostNotFound { id: 1 }, tip_error);
}

#[test]
fn tip_post_with_missing_fee_coin() {
    let (mut state, _) = init_contract(1, fixed(&[coin(100, "udsm"), coin(100, "uatom")]), 5).unwrap();
    let tip_error = err(tip_post(&mut state, USER_1, 1, &[coin(5000, "udsm")], &[coin(4900, "udsm")]));
    assert_eq!(
        ContractError::InsufficientAmount { denom: "uatom".to_string(), requested: 100, provided: 0 },
        tip_error
    );
}

#[test]
fn tip_post_with_insufficient_fees() {
    let (mut state, _) = init_contract(1, fixed(&[coin(5000, "udsm")]), 5).unwrap();
    let tip_error = err(tip_post(&mut state, USER_1, 1, &[coin(1000, "udsm")], &[coin(1000, "udsm")]));
    assert_eq!(
        ContractError::InsufficientAmount { denom: "udsm".to_string(), requested: 6000, provided: 1000 },
        tip_error
    );
}

#[test]
fn tip_post_with_zero_fees_properly() {
    let (mut state, _) = init_contract(1, None, 5).unwrap();
    tip_post(&mut state, USER_1, 1, &[coin(5000, "udsm")], &[coin(5000, "udsm")]).unwrap();
    let sent_tips = vec![tip(USER_1, POST_AUTHOR, 5000, Some(1))];
    assert_eq!(sent_tips, get_user_sent_tips(&state, USER_1));
    assert_eq!(sent_tips, get_user_received_tips(&state, POST_AUTHOR));
    assert_eq!(sent_tips, get_post_tips(&state, 1, POST_AUTHOR));
}

#[test]
fn tip_post_with_fixed_fees_properly() {
    let (mut state, _) = init_contract(1, fixed(&[coin(1000, "udsm")]), 5).unwrap();
    tip_post(&mut state, USER_1, 1, &[coin(5000, "udsm")], &[coin(4000, "udsm")]).unwrap();
    let sent_tips = vec![tip(USER_1, POST_AUTHOR, 4000, Some(1))];
    assert_eq!(sent_tips, get_user_sent_tips(&state, USER_1));
    assert_eq!(sent_tips, get_user_received_tips(&state, POST_AUTHOR));
    assert_eq!(sent_tips, get_post_tips(&state, 1, POST_AUTHOR));
}

#[test]
fn tip_post_with_percentage_fees_properly() {
    let (mut state, _) = init_contract(1, Some(ServiceFee::Percentage { value: percent(1) }), 5).unwrap();
    tip_post(&mut state, USER_1, 1, &[coin(5000, "udsm")], &[coin(4950, "udsm")]).unwrap();
    let sent_tips = vec![tip(USER_1, POST_AUTHOR, 4950, Some(1))];
    assert_eq!(sent_tips, get_user_sent_tips(&state, USER_1));
    assert_eq!(sent_tips, get_user_received_tips(&state, POST_AUTHOR));
    assert_eq!(sent_tips, get_post_tips(&state, 1, POST_AUTHOR));
}

#[test]
fn tip_reach_tips_record_size() {
    let (mut state, _) = init_contract(1, fixed(&[coin(100, "udsm")]), 2).unwrap();
    tip_user(&mut state, USER_1, USER_2, &[coin(3100, "udsm")], &[coin(3000, "udsm")]).unwrap();
    tip_user(&mut state, USER_1, USER_2, &[coin(4100, "udsm")], &[coin(4000, "udsm")]).unwrap();
    tip_user(&mut state, USER_1, USER_2, &[coin(5100, "udsm")], &[coin(5000, "udsm")]).unwrap();
    let sent_tips = vec![tip(USER_1, USER_2, 4000, None), tip(USER_1, USER_2, 5000, None)];
    assert_eq!(sent_tips, get_user_sent_tips(&state, USER_1));
    assert_eq!(sent_tips, get_user_received_tips(&state, USER_2));
}

#[test]
fn tip_without_tips_record_properly() {
    let (mut state, _) = init_contract(1, fixed(&[coin(1000, "udsm")]), 0).unwrap();
    tip_user(&mut state, USER_1, USER_2, &[coin(5000, "udsm")], &[coin(4000, "udsm")]).unwrap();
    assert!(get_user_sent_tips(&state, USER_1).is_empty());
    assert!(get_user_received_tips(&state, USER_2).is_empty());
}

#[test]
fn update_service_fees_with_invalid_admin_address() {
    let (mut state, _) = init_contract(1, fixed(&[coin(42, "udsm")]), 5).unwrap();
    let msg = ExecuteMsg::UpdateServiceFee { new_fee: fixed(&[coin(42, "udsm")]) };
    assert_eq!(ContractError::Unauthorized {}, err(admin_execute(&mut state, USER_1, msg, Ok(String::new()))));
}

#[test]
fn update_service_fee_with_empty_fixed_fee() {
    let (mut state, _) = init_contract(1, fixed(&[coin(42, "udsm")]), 5).unwrap();
    let msg = ExecuteMsg::UpdateServiceFee { new_fee: fixed(&[]) };
    assert_eq!(ContractError::EmptyFixedFee {}, err(admin_execute(&mut state, ADMIN, msg, Ok(String::new()))));
}

#[test]
fn update_service_fee_with_zero_fee_coin() {
    let (mut state, _) = init_contract(1, fixed(&[coin(42, "udsm")]), 5).unwrap();
    let msg = ExecuteMsg::UpdateServiceFee { new_fee: fixed(&[coin(42, "uatom"), coin(0, "udsm")]) };
    assert_eq!(
        ContractError::ZeroFeeCoin { denom: "udsm".to_string() },
        err(admin_execute(&mut state, ADMIN, msg, Ok(String::new())))
    );
}

#[test]
fn update_service_fee_with_invalid_percentage() {
    let (mut state, _) = init_contract(1, fixed(&[coin(42, "udsm")]), 5).unwrap();
    let msg = ExecuteMsg::UpdateServiceFee { new_fee: Some(ServiceFee::Percentage { value: percent(100) }) };
    assert_eq!(ContractError::InvalidPercentageFee {}, err(admin_execute(&mut state, ADMIN, msg, Ok(String::new()))));
}

#[test]
fn update_service_fee_properly() {
    let (mut state, _) = init_contract(1, Some(ServiceFee::Percentage { value: percent(1) }), 5).unwrap();
    let msg = ExecuteMsg::UpdateServiceFee { new_fee: fixed(&[coin(42, "udsm")]) };
    admin_execute(&mut state, ADMIN, msg, Ok(String::new())).unwrap();
    assert_eq!(Some(StateServiceFee::Fixed { amount: vec![coin(42, "udsm")] }), state.config.service_fee);
}

#[test]
fn clear_service_fee_properly() {
    let (mut state, _) = init_contract(1, Some(ServiceFee::Percentage { value: percent(1) }), 5).unwrap();
    admin_execute(&mut state, ADMIN, ExecuteMsg::UpdateServiceFee { new_fee: None }, Ok(String::new())).unwrap();
    assert_eq!(None, state.config.service_fee);
}

#[test]
fn update_admin_from_non_admin_user() {
    let (mut state, _) = init_contract(1, fixed(&[coin(42, "udsm")]), 0).unwrap();
    let msg = ExecuteMsg::UpdateAdmin { new_admin: USER_1.to_string() };
    assert_eq!(ContractError::Unauthorized {}, err(admin_execute(&mut state, USER_1, msg, validate(USER_1))));
}

#[test]
fn update_admin_with_invalid_admin_address() {
    let (mut state, _) = init_contract(1, fixed(&[coin(42, "udsm")]), 0).unwrap();
    let msg = ExecuteMsg::UpdateAdmin { new_admin: "a".to_string() };
    assert_eq!(
        ContractError::Std(StdError::GenericErr { msg: "Invalid input: human address too short".to_string() }),
        err(admin_execute(&mut state, ADMIN, msg, validate("a")))
    );
}

#[test]
fn contract_update_admin_properly() {
    let (mut state, _) = init_contract(1, fixed(&[coin(42, "udsm")]), 0).unwrap();
    let msg = ExecuteMsg::UpdateAdmin { new_admin: USER_1.to_string() };
    admin_execute(&mut state, ADMIN, msg, validate(USER_1)).unwrap();
    assert_eq!(state.config.admin.as_str(), USER_1);
}

#[test]
fn update_tips_record_size_from_non_admin() {
    let (mut state, _) = init_contract(1, fixed(&[coin(1000, "udsm")]), 10).unwrap();
    let msg = ExecuteMsg::UpdateSavedTipsHistorySize { new_size: 3 };
    assert_eq!(ContractError::Unauthorized {}, err(admin_execute(&mut state, USER_1, msg, Ok(String::new()))));
}

#[test]
fn update_tips_record_with_invalid_size() {
    let (mut state, _) = init_contract(1, fixed(&[coin(1000, "udsm")]), 3).unwrap();
    let msg = ExecuteMsg::UpdateSavedTipsHistorySize { new_size: MAX_TIPS_HISTORY_SIZE + 1 };
    assert_eq!(
        ContractError::InvalidTipsHistorySize { value: MAX_TIPS_HISTORY_SIZE + 1, max: MAX_TIPS_HISTORY_SIZE },
        err(admin_execute(&mut state, ADMIN, msg, Ok(String::new())))
    );
}

#[test]
fn update_tips_record_properly() {
    let (mut state, _) = init_contract(1, fixed(&[coin(1000, "udsm")]), 3).unwrap();
    let msg = ExecuteMsg::UpdateSavedTipsHistorySize { new_size: 10 };
    admin_execute(&mut state, ADMIN, msg, Ok(String::new())).unwrap();
    assert_eq!(10, state.config.tips_history_size);
}

#[test]
fn update_tips_record_size_records_wipe_properly() {
    let (mut state, _) = init_contract(1, fixed(&[coin(1000, "udsm")]), 10).unwrap();
    tip_user(&mut state, USER_1, USER_2, &[coin(2000, "udsm")], &[coin(1000, "udsm")]).unwrap();
    tip_user(&mut state, USER_3, USER_1, &[coin(2000, "udsm")], &[coin(1000, "udsm")]).unwrap();
    tip_post(&mut state, USER_3, 1, &[coin(2000, "udsm")], &[coin(1000, "udsm")]).unwrap();
    admin_execute(&mut state, ADMIN, ExecuteMsg::UpdateSavedTipsHistorySize { new_size: 0 }, Ok(String::new())).unwrap();
    assert!(get_user_sent_tips(&state, USER_1).is_empty());
    assert!(get_user_sent_tips(&state, USER_3).is_empty());
    assert!(get_user_received_tips(&state, USER_2).is_empty());
    assert!(get_user_received_tips(&state, USER_1).is_empty());
    assert!(get_post_tips(&state, 1, "").is_empty());
}

#[test]
fn claim_fee_from_non_admin() {
    let (mut state, _) = init_contract(1, fixed(&[coin(1000, "udsm")]), 10).unwrap();
    let msg = ExecuteMsg::ClaimFees { receiver: USER_1.to_string() };
    assert_eq!(ContractError::Unauthorized {}, err(admin_execute(&mut state, USER_1, msg, validate(USER_1))));
}

#[test]
fn claim_fee_properly() {
    let (mut state, _) = init_contract(1, fixed(&[coin(1000, "udsm")]), 10).unwrap();
    let msg = ExecuteMsg::ClaimFees { receiver: USER_1.to_string() };
    let response =
        execute(&mut state, &mock_env(), &mock_info(ADMIN, &[]), msg, validate(USER_1), vec![coin(2000, "udsm")]).unwrap();
    assert_eq!(vec![BankSend { amount: vec![coin(2000, "udsm")], to_address: USER_1.to_string() }], response.messages);
}

#[test]
fn contract_query_config_properly() {
    let (state, _) = init_contract(1, fixed(&[coin(1000, "udsm")]), 5).unwrap();
    match query(&state, QueryMsg::Config {}, Ok(String::new())) {
        Ok(QueryResponse::Config(config_response)) => {
            assert_eq!(ADMIN, config_response.admin.as_str());
            assert_eq!(1, config_response.subspace_id);
            assert_eq!(fixed(&[coin(1000, "udsm")]), config_response.service_fee);
            assert_eq!(5, config_response.tips_history_size);
        }
        _ => panic!("a configuration was expected"),
    }
}

fn tips_of(r: Result<QueryResponse, ContractError>) -> TipsResponse {
    match r {
        Ok(QueryResponse::Tips(t)) => t,
        _ => panic!("tips were expected"),
    }
}

#[test]
fn query_user_received_tips_properly() {
    let (mut state, _) = init_contract(1, fixed(&[coin(1000, "udsm")]), 5).unwrap();
    tip_user(&mut state, USER_1, USER_3, &[coin(5000, "udsm")], &[coin(4000, "udsm")]).unwrap();
    tip_user(&mut state, USER_2, USER_3, &[coin(2000, "udsm")], &[coin(1000, "udsm")]).unwrap();
    tip_user(&mut state, USER_2, USER_3, &[coin(2000, "udsm")], &[coin(1000, "udsm")]).unwrap();
    tip_user(&mut state, USER_2, USER_1, &[coin(100000, "udsm")], &[coin(99000, "udsm")]).unwrap();
    tip_user(&mut state, USER_1, USER_2, &[coin(100000, "udsm")], &[coin(99000, "udsm")]).unwrap();
    let tips = tips_of(query(&state, QueryMsg::UserReceivedTips { user: USER_3.to_string() }, validate(USER_3)));
    assert_eq!(3, tips.tips.len());
    assert_eq!(
        tips,
        TipsResponse {
            tips: vec![tip(USER_1, USER_3, 4000, None), tip(USER_2, USER_3, 1000, None), tip(USER_2, USER_3, 1000, None)]
        }
    );
}

#[test]
fn query_user_sent_tips_properly() {
    let (mut state, _) = init_contract(1, fixed(&[coin(1000, "udsm")]), 5).unwrap();
    tip_user(&mut state, USER_1, USER_3, &[coin(5000, "udsm")], &[coin(4000, "udsm")]).unwrap();
    tip_user(&mut state, USER_2, USER_3, &[coin(2000, "udsm")], &[coin(1000, "udsm")]).unwrap();
    tip_user(&mut state, USER_2, USER_3, &[coin(2000, "udsm")], &[coin(1000, "udsm")]).unwrap();
    tip_user(&mut state, USER_2, USER_1, &[coin(100000, "udsm")], &[coin(99000, "udsm")]).unwrap();
    tip_user(&mut state, USER_1, USER_2, &[coin(100000, "udsm")], &[coin(99000, "udsm")]).unwrap();
    let tips = tips_of(query(&state, QueryMsg::UserSentTips { user: USER_1.to_string() }, validate(USER_1)));
    assert_eq!(2, tips.tips.len());
    assert_eq!(tips, TipsResponse { tips: vec![tip(USER_1, USER_3, 4000, None), tip(USER_1, USER_2, 99000, None)] });
}

#[test]
fn query_tips_with_invalid_post_id() {
    let (state, _) = init_contract(1, fixed(&[coin(1000, "udsm")]), 5).unwrap();
    let error = err(query(&state, QueryMsg::PostReceivedTips { post_id: 0 }, Ok(POST_AUTHOR.to_string())));
    assert_eq!(ContractError::InvalidPostId {}, error);
}

#[test]
fn query_tips_with_not_tipped_post_id() {
    let (state, _) = init_contract(1, fixed(&[coin(1000, "udsm")]), 5).unwrap();
    let tips = tips_of(query(&state, QueryMsg::PostReceivedTips { post_id: 7 }, Ok(POST_AUTHOR.to_string())));
    assert_eq!(Vec::<Tip>::new(), tips.tips);
}

#[test]
fn query_post_received_tips_properly() {
    let (mut state, _) = init_contract(1, fixed(&[coin(1000, "udsm")]), 5).unwrap();
    tip_post(&mut state, USER_1, 1, &[coin(5000, "udsm")], &[coin(4000, "udsm")]).unwrap();
    tip_post(&mut state, USER_2, 1, &[coin(2000, "udsm")], &[coin(1000, "udsm")]).unwrap();
    tip_post(&mut state, USER_3, 1, &[coin(100000, "udsm")], &[coin(99000, "udsm")]).unwrap();
    tip_post(&mut state, USER_1, 1, &[coin(100000, "udsm")], &[coin(99000, "udsm")]).unwrap();
    let tips = tips_of(query(&state, QueryMsg::PostReceivedTips { post_id: 1 }, Ok(POST_AUTHOR.to_string())));
    assert_eq!(4, tips.tips.len());
    assert_eq!(
        tips,
        TipsResponse {
            tips: vec![
                tip(USER_1, POST_AUTHOR, 4000, Some(1)),
                tip(USER_2, POST_AUTHOR, 1000, Some(1)),
                tip(USER_3, POST_AUTHOR, 99000, Some(1)),
                tip(USER_1, POST_AUTHOR, 99000, Some(1)),
            ]
        }
    );
}

#[test]
fn query_tips_of_missing_post_error() {
    let (state, _) = init_contract(1, None, 5).unwrap();
    let missing = Err(StdError::GenericErr { msg: "post not found".to_string() });
    assert_eq!(ContractError::PostNotFound { id: 3 }, err(query(&state, QueryMsg::PostReceivedTips { post_id: 3 }, missing)));
}

#[test]
fn history_size_bound_keeps_newest_tips() {
    let (mut state, _) = init_contract(1, None, 1).unwrap();
    tip_user(&mut state, USER_1, USER_2, &[coin(10, "udsm")], &[coin(10, "udsm")]).unwrap();
    tip_user(&mut state, USER_1, USER_3, &[coin(20, "udsm")], &[coin(20, "udsm")]).unwrap();
    assert_eq!(vec![tip(USER_1, USER_3, 20, None)], get_user_sent_tips(&state, USER_1));
    assert_eq!(vec![tip(USER_1, USER_2, 10, None)], get_user_received_tips(&state, USER_2));
}
