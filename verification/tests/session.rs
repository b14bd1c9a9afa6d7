use cloud_spanner::config::SpannerConfig;
use cloud_spanner::http::{Body, HttpReply, HttpRequest, Method, Status};
use cloud_spanner::json::{member, parse_json, text, Json};
use cloud_spanner::session::{
    create_session, create_session_request, delete_session, execute_sql, execute_sql_request,
    find_session_name, read_output, spanner_result_to_output, SpannerConnection,
};

fn connection() -> SpannerConnection {
    SpannerConnection {
        config: SpannerConfig {
            database_path: "projects/p/instances/i/databases/d".to_string(),
            access_token: "tok".to_string(),
            redaction_values: vec!["tok".to_string()],
        },
        session: "projects/p/instances/i/databases/d/sessions/s".to_string(),
    }
}

fn document(source: &str) -> Json {
    parse_json(source).expect("a JSON document")
}

fn answered(code: u16, body: &str) -> HttpReply {
    HttpReply::Answered(Status::new(code).expect("a status"), body.to_string())
}

fn spanner(method: Method, resource: &str, body: Body) -> HttpRequest {
    HttpRequest {
        method,
        url: format!("https://spanner.googleapis.com/v1/{resource}"),
        bearer: Some("tok".to_string()),
        header: None,
        body,
    }
}

#[test]
fn sessions_are_created_and_deleted_on_the_database() {
    let connection = connection();
    assert_eq!(
        create_session_request(&connection.config),
        spanner(
            Method::Post,
            "projects/p/instances/i/databases/d:sessions",
            Body::Json(Json::Object(vec![]))
        )
    );
    assert_eq!(
        delete_session(&connection),
        spanner(
            Method::Delete,
            "projects/p/instances/i/databases/d/sessions/s",
            Body::Empty
        )
    );
    assert_eq!(connection.copy(), connection);
}

#[test]
fn a_statement_is_executed_in_the_session() {
    assert_eq!(
        execute_sql_request(&connection(), "SELECT \"1\""),
        spanner(
            Method::Post,
            "projects/p/instances/i/databases/d/sessions/s:executeSql",
            Body::Json(Json::Object(vec![member("sql", text("SELECT \"1\""))]))
        )
    );
}

#[test]
fn the_name_of_a_session_is_taken_out_of_the_reply() {
    assert_eq!(
        create_session(answered(200, r#"{"name":"s"}"#)),
        Ok("s".to_string())
    );
    let missing = "Cloud Spanner create session response missing name.";
    assert_eq!(create_session(answered(200, "{}")).unwrap_err(), missing);
    assert_eq!(
        create_session(answered(200, r#"{"name":7}"#)).unwrap_err(),
        missing
    );
    assert_eq!(
        create_session(answered(404, "gone")).unwrap_err(),
        "Cloud Spanner returned HTTP 404 Not Found: gone"
    );
    assert_eq!(find_session_name(Err("why".to_string())).unwrap_err(), "why");
}

#[test]
fn output_is_cut_at_the_cap() {
    let source = r#"{"rows":[[1],[2],[3]]}"#;
    let number = |n: &str| vec![Json::Number(n.to_string())];
    let (_, rows, truncated) = spanner_result_to_output(document(source), 2);
    assert_eq!(rows, vec![number("1"), number("2")]);
    assert!(truncated);
    let (_, rows, truncated) = spanner_result_to_output(document(source), 3);
    assert_eq!(rows.len(), 3);
    assert!(!truncated);
    let (_, rows, truncated) = spanner_result_to_output(document(source), 0);
    assert!(rows.is_empty());
    assert!(truncated);
}

#[test]
fn odd_results_are_read_as_far_as_they_go() {
    let (columns, rows, truncated) = spanner_result_to_output(document("{}"), 1);
    assert!(columns.is_empty() && rows.is_empty() && !truncated);
    let (columns, rows, _) = spanner_result_to_output(
        document(
            r#"{"metadata":{"rowType":{"fields":[{"name":"a"},{},{"name":1},{"name":"b"}]}},
                "rows":["x",["y"]]}"#,
        ),
        10,
    );
    assert_eq!(columns, vec!["a", "b"]);
    // A row that is no list is a row of one value.
    assert_eq!(rows, vec![vec![text("x")], vec![text("y")]]);
    let (columns, rows, _) =
        spanner_result_to_output(document(r#"{"metadata":[],"rows":{}}"#), 10);
    assert!(columns.is_empty() && rows.is_empty());
}

#[test]
fn the_reply_to_a_statement_gives_its_output() {
    assert_eq!(
        execute_sql(answered(200, r#"{"rows":[["1"]]}"#), 5),
        Ok((vec![], vec![vec![text("1")]], false))
    );
    assert_eq!(
        execute_sql(answered(400, "syntax"), 5),
        Err("Cloud Spanner returned HTTP 400 Bad Request: syntax".to_string())
    );
    assert_eq!(read_output(Err("why".to_string()), 5), Err("why".to_string()));
}
