use cloud_spanner::config::{
    explicit_token, impersonation_delegates, impersonation_target, option_string,
    request_containers, service_json, service_json_project, ServiceAccountKey, SpannerConfig,
};
use cloud_spanner::json::{parse_json, Json};

fn document(source: &str) -> Json {
    parse_json(source).expect("a JSON document")
}

fn key() -> ServiceAccountKey {
    ServiceAccountKey {
        project_id: "from-key".to_string(),
        client_email: "a@b".to_string(),
        private_key: "k".to_string(),
    }
}

fn some(s: &str) -> Option<String> {
    Some(s.to_string())
}

#[test]
fn containers_come_from_the_outside_in() {
    let request = document(
        r#"{"x":0,"profile":{"x":1,"options":{"x":5},"auth":{"x":6},"secrets":{"x":7}},
            "options":{"x":2},"auth":{"x":3},"secrets":{"x":4}}"#,
    );
    let order: Vec<Option<&Json>> = request_containers(&request)
        .into_iter()
        .map(|container| container.get("x"))
        .collect();
    let wanted: Vec<Json> = (0..8).map(|n: i32| Json::Number(n.to_string())).collect();
    assert_eq!(order, wanted.iter().map(Some).collect::<Vec<_>>());
    assert_eq!(request_containers(&document("{}")).len(), 1);
    assert_eq!(request_containers(&document("[1]")).len(), 1);
}

#[test]
fn a_setting_of_an_outer_container_wins() {
    let request = document(r#"{"profile":{"b":"inner"},"a":"outer"}"#);
    // The container counts before the order of the names.
    assert_eq!(option_string(&request, &["b", "a"]), some("outer"));
    assert_eq!(option_string(&request, &["b"]), some("inner"));
    assert_eq!(option_string(&request, &["c"]), None);
    let both = document(r#"{"a":"first","b":"second"}"#);
    assert_eq!(option_string(&both, &["b", "a"]), some("second"));
}

#[test]
fn settings_are_turned_into_trimmed_texts() {
    let request = document(r#"{"s":"  x ","n":1.50,"t":true,"f":false,"o":{},"l":[],"z":null}"#);
    assert_eq!(option_string(&request, &["s"]), some("x"));
    assert_eq!(option_string(&request, &["n"]), some("1.5"));
    assert_eq!(option_string(&request, &["t"]), some("true"));
    assert_eq!(option_string(&request, &["f"]), some("false"));
    for name in ["o", "l", "z"] {
        assert_eq!(option_string(&request, &[name]), None);
    }
}

#[test]
fn a_blank_setting_counts_as_missing() {
    let request = document(r#"{"a":"  ","options":{"a":"x"}}"#);
    assert_eq!(option_string(&request, &["a"]), some("x"));
}

#[test]
fn a_service_account_key_is_found_under_its_names() {
    for name in ["serviceAccountJson", "credentialsJson", "serviceAccountKey"] {
        let request = Json::Object(vec![(name.to_string(), Json::Text("text".to_string()))]);
        assert_eq!(service_json(&request), some("text"));
    }
    for name in ["password", "privateKey"] {
        let object = Json::Object(vec![(name.to_string(), Json::Text(" {}".to_string()))]);
        assert_eq!(service_json(&object), some("{}"));
        let other = Json::Object(vec![(name.to_string(), Json::Text("pw".to_string()))]);
        assert_eq!(service_json(&other), None);
    }
}

#[test]
fn a_token_in_the_request_comes_before_the_environment() {
    for name in ["token", "accessToken", "oauthAccessToken", "bearerToken", "password"] {
        let request = Json::Object(vec![(name.to_string(), Json::Text("t".to_string()))]);
        assert_eq!(explicit_token(&request, some("env")), some("t"));
    }
    assert_eq!(explicit_token(&document("{}"), some("env")), some("env"));
    assert_eq!(explicit_token(&document("{}"), None), None);
}

#[test]
fn impersonation_is_asked_for_by_name() {
    for name in ["impersonateServiceAccount", "serviceAccountImpersonation"] {
        let request = Json::Object(vec![(name.to_string(), Json::Text("svc".to_string()))]);
        assert_eq!(impersonation_target(&request), some("svc"));
    }
    assert_eq!(impersonation_target(&document("{}")), None);
    assert_eq!(
        impersonation_delegates(&document(r#"{"impersonationDelegates":"a, b,,"}"#)),
        vec!["a", "b"]
    );
    assert!(impersonation_delegates(&document("{}")).is_empty());
}

#[test]
fn the_project_of_a_key_file_serves_where_none_is_named() {
    let request = document(r#"{"serviceAccountJson":"{}"}"#);
    assert_eq!(service_json_project(&request, &Some(key())), some("from-key"));
    assert_eq!(service_json_project(&request, &None), None);
    // A key that came as the password gives no project.
    let password = document(r#"{"password":"{}"}"#);
    assert_eq!(service_json_project(&password, &Some(key())), None);
}

#[test]
fn a_configuration_is_made_of_three_settings() {
    let request = document(r#"{"project":"p","profile":{"instance":"i","options":{"db":"d"}}}"#);
    let config = SpannerConfig::from_request(&request, &None, " tok ".to_string()).unwrap();
    assert_eq!(
        config,
        SpannerConfig {
            database_path: "projects/p/instances/i/databases/d".to_string(),
            access_token: " tok ".to_string(),
            redaction_values: vec!["tok".to_string()],
        }
    );
    assert_eq!(config.redact("bad tok!"), "bad ****!");
    assert_eq!(config.copy(), config);
}

#[test]
fn a_missing_setting_is_named() {
    let of = |source: &str| {
        SpannerConfig::from_request(&document(source), &None, "t".to_string()).unwrap_err()
    };
    assert_eq!(of("{}"), "Cloud Spanner requires projectId.");
    assert_eq!(of(r#"{"projectId":"p"}"#), "Cloud Spanner requires instanceId.");
    assert_eq!(
        of(r#"{"projectId":"p","instanceId":"i"}"#),
        "Cloud Spanner requires databaseId."
    );
}

#[test]
fn the_key_file_names_the_project_of_a_configuration() {
    let request = document(r#"{"serviceAccountKey":"{}","instanceId":"i","databaseId":"d"}"#);
    let config = SpannerConfig::from_request(&request, &Some(key()), "t".to_string()).unwrap();
    assert_eq!(config.database_path, "projects/from-key/instances/i/databases/d");
}
