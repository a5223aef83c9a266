use serverless_backend::startup::{
    auth_backend, both_or_neither, flatten_err, metric_collection_mismatch, mgmt_address,
    tls_mismatch, AuthBackendChoice, Paired,
};

#[test]
fn tls_key_and_cert_come_together() {
    assert!(matches!(both_or_neither(Some("k"), Some("c")), Paired::Both("k", "c")));
    assert!(matches!(both_or_neither::<&str, &str>(None, None), Paired::Neither));
    assert!(matches!(both_or_neither::<&str, &str>(Some("k"), None), Paired::Mismatch));
    assert!(matches!(both_or_neither::<&str, &str>(None, Some("c")), Paired::Mismatch));
    assert_eq!(tls_mismatch(), "either both or neither tls-key and tls-cert must be specified");
    assert_eq!(
        metric_collection_mismatch(),
        "either both or neither metric-collection-endpoint and metric-collection-interval must be specified"
    );
}

#[test]
fn an_empty_mgmt_address_switches_the_listener_off() {
    assert_eq!(mgmt_address(""), None);
    assert_eq!(mgmt_address("127.0.0.1:7000"), Some("127.0.0.1:7000".to_string()));
}

#[test]
fn auth_backends_by_name() {
    match auth_backend("console", "http://c/", "http://u/") {
        Ok(AuthBackendChoice::Console(url)) => assert_eq!(url, "http://c/"),
        _ => panic!("console"),
    }
    match auth_backend("postgres", "http://c/", "http://u/") {
        Ok(AuthBackendChoice::Postgres(url)) => assert_eq!(url, "http://c/"),
        _ => panic!("postgres"),
    }
    match auth_backend("link", "http://c/", "http://u/") {
        Ok(AuthBackendChoice::Link(url)) => assert_eq!(url, "http://u/"),
        _ => panic!("link"),
    }
    match auth_backend("ldap", "http://c/", "http://u/") {
        Err(why) => assert_eq!(why, "unsupported auth backend: ldap"),
        _ => panic!("unsupported"),
    }
}

#[test]
fn task_results_are_flattened() {
    assert_eq!(flatten_err(Ok(Ok(()))), Ok(()));
    assert_eq!(flatten_err(Ok(Err("task failed".to_string()))), Err("task failed".to_string()));
    assert_eq!(
        flatten_err(Err("task panicked".to_string())),
        Err("join error: task panicked".to_string())
    );
}
