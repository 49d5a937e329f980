use cosmwasm_std::Decimal;
use desmos_contracts::coins::Coin;
use desmos_contracts::tips::{merge_coins, ContractError, ServiceFee, StateServiceFee, StateTip, Tip};

fn percent(value: u128, decimal_places: u32) -> u128 {
    Decimal::from_atomics(value, decimal_places).unwrap().atomics().u128()
}

#[test]
fn fixed_service_fee_zero_fee_coin_error() {
    let service_fee = ServiceFee::Fixed { amount: vec![Coin::new(0, "udsm")] };
    assert_eq!(ContractError::ZeroFeeCoin { denom: "udsm".to_string() }, service_fee.validate().unwrap_err());
}

#[test]
fn fixed_service_fee_empty_amount_error() {
    let service_fee = ServiceFee::Fixed { amount: vec![] };
    assert_eq!(ContractError::EmptyFixedFee {}, service_fee.validate().unwrap_err());
}

#[test]
fn fixed_service_fee_validate_properly() {
    let service_fee = ServiceFee::Fixed { amount: vec![Coin::new(42, "udsm")] };
    service_fee.validate().unwrap();
}

#[test]
fn percentage_service_fee_zero_percentage_error() {
    let service_fee = ServiceFee::Percentage { value: percent(0, 0) };
    assert_eq!(ContractError::InvalidPercentageFee {}, service_fee.validate().unwrap_err());
}

#[test]
fn percentage_service_fee_100_percentage_error() {
    let service_fee = ServiceFee::Percentage { value: percent(100, 0) };
    assert_eq!(ContractError::InvalidPercentageFee {}, service_fee.validate().unwrap_err());
}

#[test]
fn percentage_service_fee_validate_properly() {
    let service_fee = ServiceFee::Percentage { value: percent(25, 1) };
    service_fee.validate().unwrap();
}

#[test]
fn tip_from_state_tip_properly() {
    let sender = "sender".to_string();
    let receiver = "receiver".to_string();
    assert_eq!(
        Tip { sender: sender.clone(), receiver: receiver.clone(), amount: vec![], post_id: Some(32), block_height: 1234 },
        Tip::from_state_tip(StateTip { receiver, sender, amount: vec![], ref_counter: 2, post_id: 32 }, 1234)
    )
}

#[test]
fn fixed_state_service_fee_from_service_fee_properly() {
    let fees = vec![Coin::new(1000, "udsm")];
    let service_fee = ServiceFee::Fixed { amount: vec![Coin::new(1000, "udsm")] };
    let state_service_fee = StateServiceFee::try_from(service_fee).unwrap();
    match state_service_fee {
        StateServiceFee::Fixed { amount } => assert_eq!(fees, amount),
        StateServiceFee::Percentage { .. } => {
            panic!("ServiceFee::Fixed should be converted to StateServiceFee::Fixed")
        }
    }
}

#[test]
fn fixed_fees_insufficient_funds_error() {
    let fixed_fee_amount = 2000;
    let tip_amount = 1000;
    let fund_amount = 2500;
    let service_fees = StateServiceFee::Fixed { amount: vec![Coin::new(fixed_fee_amount, "udsm")] };
    let funds = vec![Coin::new(fund_amount, "udsm")];
    let tips = vec![Coin::new(tip_amount, "udsm")];
    let computed_fees = service_fees.check_fees(&funds, &tips).unwrap_err();
    assert_eq!(
        ContractError::InsufficientFunds { requested: "3000udsm".to_string(), provided: "2500udsm".to_string() },
        computed_fees
    );
}

#[test]
fn fixed_fees_fee_coin_not_provided_error() {
    let fixed_fee_amount = 20000;
    let tip_amount = 100000;
    let service_fees = StateServiceFee::Fixed {
        amount: vec![Coin::new(fixed_fee_amount, "udsm"), Coin::new(fixed_fee_amount, "uatom")],
    };
    let computed_fees = service_fees
        .check_fees(&vec![Coin::new(fixed_fee_amount + tip_amount, "udsm")], &vec![Coin::new(tip_amount, "udsm")])
        .unwrap_err();
    assert_eq!(
        ContractError::InsufficientFunds {
            requested: "20000uatom,120000udsm".to_string(),
            provided: "120000udsm".to_string()
        },
        computed_fees
    );
}

#[test]
fn fixed_fees_fee_fund_coin_not_provided_error() {
    let fixed_fee_amount = 20000;
    let tip_amount = 100000;
    let service_fees = StateServiceFee::Fixed { amount: vec![Coin::new(fixed_fee_amount, "udsm")] };
    let computed_fees = service_fees
        .check_fees(
            &vec![Coin::new(fixed_fee_amount + tip_amount, "udsm")],
            &vec![Coin::new(tip_amount, "udsm"), Coin::new(tip_amount, "uatom")],
        )
        .unwrap_err();
    assert_eq!(
        ContractError::InsufficientFunds {
            requested: "100000uatom,120000udsm".to_string(),
            provided: "120000udsm".to_string(),
        },
        computed_fees
    );
}

#[test]
fn fixed_fees_check_properly() {
    let fixed_fee_amount = 20000;
    let tip_amount = 100000;
    let service_fees = StateServiceFee::Fixed {
        amount: vec![Coin::new(fixed_fee_amount, "udsm"), Coin::new(fixed_fee_amount, "uatom")],
    };
    service_fees
        .check_fees(
            &vec![Coin::new(fixed_fee_amount + tip_amount, "udsm"), Coin::new(fixed_fee_amount, "uatom")],
            &vec![Coin::new(tip_amount, "udsm")],
        )
        .unwrap();
}

#[test]
fn percentage_state_service_fee_from_service_fee_invalid_percentage_error() {
    let service_fee = ServiceFee::Percentage { value: percent(100, 0) };
    let error = StateServiceFee::try_from(service_fee).unwrap_err();
    assert_eq!(ContractError::InvalidPercentageFee {}, error);
}

#[test]
fn percentage_state_service_fee_from_service_fee_properly() {
    let service_fee = ServiceFee::Percentage { value: Decimal::one().atomics().u128() };
    let state_service_fee = StateServiceFee::try_from(service_fee).unwrap();
    match state_service_fee {
        StateServiceFee::Fixed { .. } => {
            panic!("ServiceFee::Percentage should be converted to StateServiceFee::Percentage")
        }
        StateServiceFee::Percentage { value } => {
            assert_eq!("1", Decimal::raw(value).to_string());
        }
    }
}

#[test]
fn percentage_fees_insufficient_funds_error() {
    let tip_amount = 1000;
    let fund_amount = 1099;
    let service_fees = StateServiceFee::Percentage { value: percent(10, 0) };
    let tips = vec![Coin::new(tip_amount, "udsm")];
    let funds = vec![Coin::new(fund_amount, "udsm")];
    let computed_fees = service_fees.check_fees(&funds, &tips).unwrap_err();
    assert_eq!(
        ContractError::InsufficientFunds { requested: "1100udsm".to_string(), provided: "1099udsm".to_string() },
        computed_fees
    );
}

#[test]
fn percentage_fee_fund_coin_not_provided_error() {
    let tip_amount = 1000;
    let fund_amount = 1100;
    let service_fees = StateServiceFee::Percentage { value: percent(10, 0) };
    let tips = vec![Coin::new(tip_amount, "udsm"), Coin::new(tip_amount, "uatom")];
    let funds = vec![Coin::new(fund_amount, "udsm")];
    let computed_fees = service_fees.check_fees(&funds, &tips).unwrap_err();
    assert_eq!(
        ContractError::InsufficientFunds {
            requested: "1100uatom,1100udsm".to_string(),
            provided: "1100udsm".to_string(),
        },
        computed_fees
    );
}

#[test]
fn test_coin_merge_duplicates() {
    let merged = merge_coins(vec![
        Coin::new(100, "uatom"),
        Coin::new(3000, "udsm"),
        Coin::new(1000, "uosmo"),
        Coin::new(200, "udsm"),
        Coin::new(2000, "uatom"),
    ])
    .unwrap();
    assert_eq!(vec![Coin::new(2100, "uatom"), Coin::new(3200, "udsm"), Coin::new(1000, "uosmo")], merged)
}

#[test]
fn test_coin_merge_no_duplicates() {
    let merged = merge_coins(vec![Coin::new(100, "uatom"), Coin::new(3000, "udsm"), Coin::new(1000, "uosmo")]).unwrap();
    assert_eq!(vec![Coin::new(100, "uatom"), Coin::new(3000, "udsm"), Coin::new(1000, "uosmo")], merged)
}

#[test]
fn configured_fee_comes_back_unchanged() {
    let fee = ServiceFee::Fixed { amount: vec![Coin::new(1000, "uatom"), Coin::new(1000, "udsm")] };
    let stored = StateServiceFee::try_from(fee).unwrap();
    let back = ServiceFee::from(stored);
    match &back {
        ServiceFee::Fixed { amount } => assert_eq!(&vec![Coin::new(1000, "uatom"), Coin::new(1000, "udsm")], amount),
        _ => panic!("a fixed fee was expected"),
    }
    assert!(StateServiceFee::try_from(back).is_ok());
}
