use serverless_backend::types::{
    clone_options, local_proxy_suffix, same_options, ComputeUserInfo, ConnInfo, EndpointId,
};

fn ep(s: &str) -> EndpointId {
    EndpointId::from(s.to_string())
}

#[test]
fn endpoints_are_case_folded_and_lose_trailing_hyphens() {
    assert_eq!(ep("EP-Cool-Name-123").normalize().as_str(), "ep-cool-name-123");
    assert_eq!(ep("ep1--").normalize().as_str(), "ep1");
    assert_eq!(ep("ep1").normalize().as_str(), "ep1");
    assert_eq!(ep("---").normalize().as_str(), "");
    assert_eq!(ep("").normalize().as_str(), "");
    assert_eq!(ep("-a-B-").normalize().as_str(), "-a-b");
}

#[test]
fn normalizing_twice_changes_nothing_more() {
    for s in ["EP1--", "MiXed-Case-", "plain", "--"] {
        let once = ep(s).normalize();
        let twice = once.normalize();
        assert!(once.same(&twice));
    }
}

#[test]
fn the_local_proxy_is_addressed_by_suffix() {
    assert_eq!(local_proxy_suffix(), "-local");
    assert_eq!(ep("EP1").local_proxy().as_str(), "ep1-local");
    assert_eq!(ep("ep1-").local_proxy().as_str(), "ep1-local");
}

fn info(user: &str, endpoint: &str, options: &[(&str, &str)]) -> ComputeUserInfo {
    ComputeUserInfo {
        user: user.to_string(),
        endpoint: ep(endpoint),
        options: options.iter().map(|(k, v)| (k.to_string(), v.to_string())).collect(),
    }
}

#[test]
fn keys_are_equal_when_all_four_parts_are() {
    let a = ConnInfo::new(info("u", "ep1", &[("x", "1"), ("y", "2")]), "main".to_string());
    let b = a.clone();
    assert!(a.same_key(&b));
    assert!(!a.same_key(&ConnInfo::new(info("u", "ep1", &[("y", "2"), ("x", "1")]), "main".to_string())));
    assert!(!a.same_key(&ConnInfo::new(info("u", "ep1", &[("x", "1")]), "main".to_string())));
    assert!(!a.same_key(&ConnInfo::new(info("u", "EP1", &[("x", "1"), ("y", "2")]), "main".to_string())));
    assert!(!a.same_key(&ConnInfo::new(info("u", "ep1", &[("x", "1"), ("y", "2")]), "other".to_string())));
    assert!(!a.same_key(&ConnInfo::new(info("v", "ep1", &[("x", "1"), ("y", "2")]), "main".to_string())));
}

#[test]
fn options_keep_their_order_when_copied() {
    let a = vec![("b".to_string(), "2".to_string()), ("a".to_string(), "1".to_string())];
    let b = clone_options(&a);
    assert_eq!(a, b);
    assert!(same_options(&a, &b));
    let c = vec![("a".to_string(), "1".to_string()), ("b".to_string(), "2".to_string())];
    assert!(!same_options(&a, &c));
    assert!(!same_options(&a, &Vec::new()));
}
