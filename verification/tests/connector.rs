use cloud_spanner::config::SpannerConfig;
use cloud_spanner::connections::Connections;
use cloud_spanner::connector::{
    answer_metadata, answer_query, call_json, close, connect, connection, describe, metadata,
    query, query_statement, Connector, Dispatch,
};
use cloud_spanner::http::{HttpRequest, Method};
use cloud_spanner::json::{member, text, Json};
use cloud_spanner::reply::{state_poisoned, Reply};
use cloud_spanner::session::SpannerConnection;

fn connector() -> Connector {
    Connector {
        engine: "cloudSpanner".to_string(),
        abi_version: Json::Number("1".to_string()),
        driver_linked: true,
        manifest: r#"{"id":"irodori.cloud-spanner"}"#.to_string(),
        config: "not json".to_string(),
    }
}

fn open(name: &str) -> SpannerConnection {
    SpannerConnection {
        config: SpannerConfig {
            database_path: format!("db-{name}"),
            access_token: format!("token-{name}"),
            redaction_values: vec![format!("token-{name}")],
        },
        session: format!("session-{name}"),
    }
}

fn answer(method: &str) -> Reply {
    match call_json(&connector(), method) {
        Dispatch::Answer(reply) => reply,
        _ => panic!("{method} is answered at once"),
    }
}

fn error(code: &str, message: &str) -> Reply {
    Reply::Error(code.to_string(), message.to_string())
}

fn health() -> Vec<(String, Json)> {
    vec![
        member("engine", text("cloudSpanner")),
        member("abiVersion", Json::Number("1".to_string())),
        member("driverLinked", Json::Bool(true)),
    ]
}

fn request_of(out: Result<(SpannerConnection, HttpRequest), Reply>) -> HttpRequest {
    out.expect("an open connection").1
}

#[test]
fn health_is_reported() {
    assert_eq!(answer("health"), Reply::Fields(health()));
    assert_eq!(answer("ping"), Reply::Fields(health()));
}

#[test]
fn the_connector_describes_itself() {
    let mut fields = health();
    fields.push(member(
        "manifest",
        Json::Object(vec![member("id", text("irodori.cloud-spanner"))]),
    ));
    // A text that is no JSON is described as null.
    fields.push(member("config", Json::Null));
    assert_eq!(answer("capabilities"), Reply::Fields(fields));
    assert_eq!(answer("describe"), answer("capabilities"));
    let mut fields = health();
    fields.push(member("manifest", Json::Null));
    fields.push(member("config", Json::Bool(true)));
    assert_eq!(
        describe(&connector(), Err("why".to_string()), Ok(Json::Bool(true))),
        Reply::Fields(fields)
    );
}

#[test]
fn documents_are_handed_out_as_they_are() {
    assert_eq!(answer("manifest"), Reply::Document(connector().manifest));
    assert_eq!(answer("config"), Reply::Document("not json".to_string()));
}

#[test]
fn methods_on_connections_are_told_apart() {
    let called = |method: &str| call_json(&connector(), method);
    assert!(matches!(called("connect"), Dispatch::Connect));
    assert!(matches!(called("query"), Dispatch::Query));
    assert!(matches!(called("metadata"), Dispatch::Metadata));
    assert!(matches!(called("close"), Dispatch::Close));
}

#[test]
fn an_unknown_method_is_refused_by_name() {
    for method in ["", "Health", "drop"] {
        assert_eq!(
            answer(method),
            error(
                "connector.unknownMethod",
                &format!("unknown connector method: {method}")
            )
        );
    }
}

#[test]
fn a_connection_is_found_until_it_is_closed() {
    let mut connections = Connections::new();
    let missing = error("connector.connectionNotFound", "no open connection: a");
    assert_eq!(connection(&connections, "a"), Err(missing));
    assert_eq!(
        connect(&connector(), &mut connections, "a", open("1")),
        Reply::Fields(vec![
            member("engine", text("cloudSpanner")),
            member("connectionId", text("a")),
            member("driverLinked", Json::Bool(true)),
            member("database", text("db-1")),
            member("serverVersion", text("Google Cloud Spanner v1 API")),
        ])
    );
    connect(&connector(), &mut connections, "b", open("2"));
    assert_eq!(connection(&connections, "a"), Ok(open("1")));
    assert_eq!(connection(&connections, "b"), Ok(open("2")));

    let (request, reply) = close(&mut connections, "a");
    let request = request.expect("a session to delete");
    assert_eq!(request.method, Method::Delete);
    assert_eq!(request.url, "https://spanner.googleapis.com/v1/session-1");
    assert_eq!(request.bearer, Some("token-1".to_string()));
    let closed = |yes: bool| {
        Reply::Fields(vec![
            member("connectionId", text("a")),
            member("closed", Json::Bool(yes)),
        ])
    };
    assert_eq!(reply, closed(true));
    assert!(connection(&connections, "a").is_err());
    assert_eq!(connection(&connections, "b"), Ok(open("2")));

    let (request, reply) = close(&mut connections, "a");
    assert!(request.is_none());
    assert_eq!(reply, closed(false));
}

#[test]
fn connecting_again_replaces_the_connection() {
    let mut connections = Connections::new();
    for name in ["1", "2", "3"] {
        connect(&connector(), &mut connections, "a", open(name));
    }
    assert_eq!(connections.get("a"), Some(&open("3")));
    assert_eq!(connections.remove("a"), Some(open("3")));
    assert_eq!(connections.remove("a"), None);
    assert_eq!(connections.get("a"), None);
}

#[test]
fn a_statement_is_taken_from_the_first_field_that_has_it() {
    let (a, b, c) = (Some("a"), Some("b"), Some("c"));
    assert_eq!(query_statement(a, b, c), Ok("a"));
    assert_eq!(query_statement(None, b, c), Ok("b"));
    assert_eq!(query_statement(None, None, c), Ok("c"));
    assert_eq!(query_statement(Some(""), b, c), Ok(""));
    assert_eq!(
        query_statement(None, None, None),
        Err(error(
            "connector.invalidRequest",
            "query requires a string sql, query, or statement field."
        ))
    );
}

#[test]
fn requests_go_out_on_the_connection_that_is_named() {
    let mut connections = Connections::new();
    connect(&connector(), &mut connections, "a", open("1"));
    connect(&connector(), &mut connections, "b", open("2"));
    for request in [
        request_of(query(&connections, "b", "SELECT 1")),
        request_of(metadata(&connections, "b")),
    ] {
        assert_eq!(request.url, "https://spanner.googleapis.com/v1/session-2:executeSql");
        assert_eq!(request.bearer, Some("token-2".to_string()));
    }
    let missing = error("connector.connectionNotFound", "no open connection: c");
    assert_eq!(query(&connections, "c", "SELECT 1"), Err(missing));
    let missing = error("connector.connectionNotFound", "no open connection: c");
    assert_eq!(metadata(&connections, "c"), Err(missing));
}

#[test]
fn a_query_is_answered_with_its_output() {
    let output = (
        vec!["id".to_string()],
        vec![vec![text("1")], vec![Json::Null, Json::Bool(true)]],
        true,
    );
    assert_eq!(
        answer_query(&open("1"), "a", Ok(output)),
        Reply::Fields(vec![
            member("connectionId", text("a")),
            member("columns", Json::Array(vec![text("id")])),
            member(
                "rows",
                Json::Array(vec![
                    Json::Array(vec![text("1")]),
                    Json::Array(vec![Json::Null, Json::Bool(true)]),
                ])
            ),
            member("truncated", Json::Bool(true)),
        ])
    );
}

#[test]
fn a_description_is_answered() {
    assert_eq!(
        answer_metadata(&open("1"), "a", Ok(Json::Bool(false))),
        Reply::Fields(vec![
            member("connectionId", text("a")),
            member("metadata", Json::Bool(false)),
        ])
    );
}

#[test]
fn failures_do_not_show_the_token() {
    let why = || "token-1 is expired (token-1)".to_string();
    assert_eq!(
        answer_query(&open("1"), "a", Err(why())),
        error("connector.queryFailed", "**** is expired (****)")
    );
    assert_eq!(
        answer_metadata(&open("1"), "a", Err(why())),
        error("connector.metadataFailed", "**** is expired (****)")
    );
}

#[test]
fn poisoned_state_is_reported() {
    assert_eq!(
        state_poisoned(),
        error(
            "connector.statePoisoned",
            "Connector connection state is poisoned."
        )
    );
}
