use desmos_contracts::chain::{Attribute, MessageInfo};
use desmos_contracts::filter_posts::{
    instantiate, is_under_reports_limit, query_filtered_posts, ContractError, ExecuteMsg, InstantiateMsg, State,
};

fn mock_info(sender: &str) -> MessageInfo {
    MessageInfo { sender: sender.to_string(), funds: vec![] }
}

fn attrs(pairs: &[(&str, &str)]) -> Vec<Attribute> {
    pairs.iter().map(|(k, v)| Attribute { key: k.to_string(), value: v.to_string() }).collect()
}

fn setup_test(default_reports_limit: u16) -> State {
    instantiate(InstantiateMsg { reports_limit: default_reports_limit }).0
}

#[test]
fn filter_posts_contract_test_instantiate() {
    let (state, res) = instantiate(InstantiateMsg { reports_limit: 5 });
    assert_eq!(0, res.messages.len());
    assert_eq!(res.attributes, attrs(&[("action", "set_default_reports_limit")]));
    assert_eq!(5, state.default_reports_limit);
}

#[test]
fn test_init() {
    let (state, res) = instantiate(InstantiateMsg { reports_limit: 5 });
    assert_eq!(0, res.messages.len());
    assert_eq!(res.attributes, attrs(&[("action", "set_default_reports_limit")]));
    assert_eq!(5, state.default_reports_limit);
}

#[test]
fn test_execute() {
    let mut state = setup_test(3);
    let info = mock_info("editor");
    let res = state.execute(&info, ExecuteMsg::EditReportsLimit { reports_limit: 5 });
    assert!(res.is_ok());
    assert_eq!(res.unwrap().attributes, attrs(&[("action", "edit_reports_limit"), ("editor", "editor")]));
    let res = state.execute(&info, ExecuteMsg::EditReportsLimit { reports_limit: 5 });
    match res.unwrap_err() {
        ContractError::EqualsReportLimits { .. } => {}
    }
}

#[test]
fn test_handle() {
    let mut state = setup_test(3);
    let res = state.handle_report_limit_edit(&mock_info("editor"), 5).unwrap();
    assert_eq!(res.attributes, attrs(&[("action", "edit_reports_limit"), ("editor", "editor")]));
    assert_eq!(5, state.default_reports_limit);
    assert_eq!(ContractError::EqualsReportLimits {}, state.handle_report_limit_edit(&mock_info("editor"), 5).unwrap_err());
}

#[test]
fn test_query() {
    let _state = setup_test(3);
    let posts = vec!["id123".to_string()];
    assert_eq!(vec!["id123".to_string()], query_filtered_posts(posts, vec![1], 3));
}

#[test]
fn is_under_reports_limit_checks_correctly() {
    assert_eq!(is_under_reports_limit(1, 5), true);
    assert_eq!(is_under_reports_limit(1, 1), false);
    assert_eq!(is_under_reports_limit(65_536, 1), false);
}

#[test]
fn contract_query_filtered_posts_filter_correctly() {
    let _state = setup_test(5);
    assert_eq!(vec!["id123".to_string()], query_filtered_posts(vec!["id123".to_string()], vec![1], 3));
    assert!(query_filtered_posts(vec!["id123".to_string()], vec![1], 1).is_empty());
}

#[test]
fn integration_query_filtered_posts_filter_correctly() {
    assert_eq!(vec!["id123".to_string()], query_filtered_posts(vec!["id123".to_string()], vec![1], 3));
    assert!(query_filtered_posts(vec!["id123".to_string()], vec![1], 1).is_empty());
}

#[test]
fn query_filtered_posts_keeps_order() {
    let posts = vec!["a", "b", "c", "d"];
    assert_eq!(vec!["a", "c"], query_filtered_posts(posts, vec![0, 4, 2, 3], 3));
}
