use desmos_contracts::chain::Attribute;
use desmos_contracts::coins::{Coin, StdError};
use desmos_contracts::tokenomics::{instantiate, BankSend, InstantiateMsg, Post, SudoMsg, TokenomicsState};

fn setup_test(denom: &str) -> TokenomicsState {
    instantiate(InstantiateMsg { token_denom: denom.to_string() }).0
}

fn default_post() -> Post {
    Post { post_id: "id123".to_string(), creator: "default_creator".to_string(), subspace: "subspace".to_string() }
}

fn attrs(pairs: &[(&str, &str)]) -> Vec<Attribute> {
    pairs.iter().map(|(k, v)| Attribute { key: k.to_string(), value: v.to_string() }).collect()
}

#[test]
fn tokenomics_contract_test_instantiate() {
    let (state, res) = instantiate(InstantiateMsg { token_denom: "udesmos".to_string() });
    assert_eq!(res.attributes, attrs(&[("action", "set_token_denom")]));
    assert_eq!(Some("udesmos".to_string()), state.denom);
}

#[test]
fn integration_test_instantiate() {
    let (state, res) = instantiate(InstantiateMsg { token_denom: "udesmos".to_string() });
    assert_eq!(0, res.messages.len());
    assert_eq!(res.attributes, attrs(&[("action", "set_token_denom")]));
    assert_eq!("udesmos", state.denom.unwrap());
}

#[test]
fn test_calculate_rewards() {
    let state = setup_test("udesmos");
    let actual_rewards = state.calculate_rewards(5, 7).unwrap();
    assert_eq!(Coin { denom: "udesmos".to_string(), amount: 2_000_000 }, actual_rewards[0]);
}

#[test]
#[should_panic]
fn test_calculate_rewards_error() {
    let state = TokenomicsState { denom: None, reactions: Vec::new() };
    let _error = state.calculate_rewards(5, 7).unwrap();
}

#[test]
fn calculate_rewards_without_new_reactions_is_zero() {
    let state = setup_test("udesmos");
    assert_eq!(vec![Coin { denom: "udesmos".to_string(), amount: 0 }], state.calculate_rewards(7, 5).unwrap());
}

#[test]
fn contract_test_execute_tokenomics_successfully() {
    let mut state = setup_test("udesmos");
    let reactions = vec![Ok(vec!["reactor".to_string(), "default_creator".to_string()])];
    let response = state.execute_tokenomics(vec![default_post()], reactions);
    assert!(response.is_ok());
    let response = response.unwrap();
    assert_eq!(
        vec![BankSend {
            to_address: "default_creator".to_string(),
            amount: vec![Coin { denom: "udesmos".to_string(), amount: 1_000_000 }],
        }],
        response.messages
    );
    assert_eq!(attrs(&[("action", "executed_tokenomics"), ("subspace_id", "subspace")]), response.attributes);
}

#[test]
fn integration_test_execute_tokenomics_successfully() {
    let mut state = setup_test("udesmos");
    let reactions = vec![Ok(vec!["reactor".to_string()])];
    let response = state.sudo(SudoMsg::ExecuteTokenomics {}, Ok(vec![default_post()]), reactions);
    assert!(response.is_ok());
    let response = response.unwrap();
    assert_eq!(
        vec![BankSend {
            to_address: "default_creator".to_string(),
            amount: vec![Coin { denom: "udesmos".to_string(), amount: 1_000_000 }],
        }],
        response.messages
    );
    assert_eq!(attrs(&[("action", "executed_tokenomics"), ("subspace_id", "subspace")]), response.attributes);
}

#[test]
fn tokenomics_rewards_only_new_reactions() {
    let mut state = setup_test("udesmos");
    let first = state.execute_tokenomics(vec![default_post()], vec![Ok(vec!["a".to_string(), "b".to_string()])]).unwrap();
    assert_eq!(2_000_000, first.messages[0].amount[0].amount);
    assert_eq!(2, state.stored_of(&"id123".to_string()));
    let again = state.execute_tokenomics(vec![default_post()], vec![Ok(vec!["a".to_string(), "b".to_string()])]).unwrap();
    assert!(again.messages.is_empty());
    let more = state
        .execute_tokenomics(vec![default_post()], vec![Ok(vec!["a".to_string(), "b".to_string(), "c".to_string()])])
        .unwrap();
    assert_eq!(1_000_000, more.messages[0].amount[0].amount);
}

#[test]
fn tokenomics_reactions_query_error_keeps_state() {
    let mut state = setup_test("udesmos");
    let err = state
        .execute_tokenomics(vec![default_post()], vec![Err(StdError::GenericErr { msg: "down".to_string() })])
        .unwrap_err();
    assert_eq!(format!("{:?}", err), format!("{:?}", desmos_contracts::tokenomics::ContractError::Std(StdError::GenericErr { msg: "down".to_string() })));
    assert!(state.reactions.is_empty());
}

#[test]
fn sudo_posts_query_error() {
    let mut state = setup_test("udesmos");
    let err = state.sudo(SudoMsg::ExecuteTokenomics {}, Err(StdError::GenericErr { msg: "no".to_string() }), vec![]);
    assert!(err.is_err());
}
