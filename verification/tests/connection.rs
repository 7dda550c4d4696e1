use todo_fargate::repository::dynamo_connection::{
    create_db, create_local_db, create_remote_db, flag_name, Config,
};

fn is_local(config: &Config) -> bool {
    matches!(config, Config::Local { .. })
}

#[test]
fn flag_is_called_local() {
    assert_eq!(flag_name(), "local");
}

#[test]
fn true_selects_the_local_store() {
    match create_db(Some("true".to_string())) {
        Config::Local { endpoint_url, access_key_id, secret_access_key, session_token, region } => {
            assert_eq!(endpoint_url, "http://localhost:8000");
            assert_eq!(access_key_id, "DEMO");
            assert_eq!(secret_access_key, "DEMO");
            assert_eq!(session_token, "DEMO");
            assert_eq!(region, "eu-west-1");
        }
        Config::Remote { .. } => panic!("the local store was asked for"),
    }
}

#[test]
fn unset_flag_selects_the_managed_store() {
    match create_db(None) {
        Config::Remote { fallback_region } => assert_eq!(fallback_region, "eu-west-1"),
        Config::Local { .. } => panic!("the managed store was asked for"),
    }
}

#[test]
fn every_other_value_selects_the_managed_store() {
    for value in vec!["false", "local", "TRUE", "True", " true", "true ", "1", ""] {
        assert!(!is_local(&create_db(Some(value.to_string()))), "for {:?}", value);
    }
}

#[test]
fn the_two_ways() {
    assert!(is_local(&create_local_db()));
    assert!(!is_local(&create_remote_db()));
}
