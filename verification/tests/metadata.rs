use cloud_spanner::config::SpannerConfig;
use cloud_spanner::http::{Body, HttpReply, Status};
use cloud_spanner::json::{member, parse_json, text, Json};
use cloud_spanner::metadata::{
    describe_catalog, field, load_metadata, metadata_request, read_metadata, METADATA_ROWS,
};
use cloud_spanner::session::SpannerConnection;

fn document(source: &str) -> Json {
    parse_json(source).expect("a JSON document")
}

/// The result set with those rows of the information schema.
fn result(rows: &str) -> Json {
    document(&format!(
        r#"{{"metadata":{{"rowType":{{"fields":[
            {{"name":"TABLE_SCHEMA"}},{{"name":"TABLE_NAME"}},{{"name":"COLUMN_NAME"}},
            {{"name":"SPANNER_TYPE"}},{{"name":"ORDINAL_POSITION"}},{{"name":"IS_NULLABLE"}}
        ]}}}},"rows":{rows}}}"#
    ))
}

fn column(name: &str, data_type: &str, nullable: bool, ordinal: &str) -> Json {
    Json::Object(vec![
        member("name", text(name)),
        member("dataType", text(data_type)),
        member("nullable", Json::Bool(nullable)),
        member("ordinal", Json::Number(ordinal.to_string())),
    ])
}

fn table(schema: &str, name: &str, columns: Vec<Json>) -> Json {
    Json::Object(vec![
        member("schema", text(schema)),
        member("name", text(name)),
        member("kind", text("table")),
        member("columns", Json::Array(columns)),
        member("indexes", Json::Array(vec![])),
        member("primaryKey", Json::Array(vec![])),
        member("foreignKeys", Json::Array(vec![])),
    ])
}

fn schema(name: &str, objects: Vec<Json>) -> Json {
    Json::Object(vec![
        member("name", text(name)),
        member("objects", Json::Array(objects)),
    ])
}

fn schemas(list: Vec<Json>) -> Json {
    Json::Object(vec![member("schemas", Json::Array(list))])
}

#[test]
fn tables_are_described_in_order() {
    let value = result(
        r#"[["s2","t","a","INT64","1","NO"],
            ["","z","a","STRING(MAX)","1","YES"],
            ["","b","c2","BOOL","2","yes"],
            ["","b","c1","DATE","1","TRUE"],
            ["s2","t","b","BYTES(1)","2","no"]]"#,
    );
    assert_eq!(
        describe_catalog(value),
        schemas(vec![
            schema(
                "",
                vec![
                    table(
                        "",
                        "b",
                        vec![column("c2", "BOOL", true, "2"), column("c1", "DATE", true, "1")]
                    ),
                    table("", "z", vec![column("a", "STRING(MAX)", true, "1")]),
                ]
            ),
            schema(
                "s2",
                vec![table(
                    "s2",
                    "t",
                    vec![column("a", "INT64", false, "1"), column("b", "BYTES(1)", false, "2")]
                )]
            ),
        ])
    );
}

#[test]
fn rows_without_a_table_or_a_column_are_passed_over() {
    let value = result(r#"[["s","","a","T","1","NO"],["s","t",null,"T","1","NO"],["s","t"]]"#);
    assert_eq!(describe_catalog(value), schemas(vec![]));
}

#[test]
fn missing_cells_are_filled_in() {
    // No type, no position that can be read, and nothing on whether it may be null.
    let value = result(
        r#"[[null,"t","a"],[null,"t","b",[],"x",{}],[null,"t","c",true,7,false]]"#,
    );
    assert_eq!(
        describe_catalog(value),
        schemas(vec![schema(
            "",
            vec![table(
                "",
                "t",
                vec![
                    column("a", "", true, "1"),
                    column("b", "", true, "2"),
                    column("c", "true", false, "7"),
                ]
            )]
        )])
    );
}

#[test]
fn a_database_without_tables_has_no_schemas() {
    assert_eq!(describe_catalog(document("{}")), schemas(vec![]));
}

#[test]
fn cells_are_found_by_the_name_of_their_column() {
    let columns = vec!["A".to_string(), "b".to_string(), "a".to_string()];
    let row = vec![text("x"), Json::Number("2".to_string())];
    assert_eq!(field(&columns, &row, "a"), Some("x".to_string()));
    assert_eq!(field(&columns, &row, "B"), Some("2".to_string()));
    assert_eq!(field(&columns, &row, "c"), None);
    assert_eq!(field(&columns, &vec![], "a"), None);
    let others = vec![Json::Null, Json::Bool(false), Json::Array(vec![])];
    let names: Vec<String> = ["n", "t", "l"].iter().map(|s| s.to_string()).collect();
    assert_eq!(field(&names, &others, "n"), None);
    assert_eq!(field(&names, &others, "t"), Some("false".to_string()));
    assert_eq!(field(&names, &others, "l"), None);
}

#[test]
fn the_columns_of_every_table_are_asked_for() {
    let connection = SpannerConnection {
        config: SpannerConfig {
            database_path: "d".to_string(),
            access_token: "tok".to_string(),
            redaction_values: vec![],
        },
        session: "s".to_string(),
    };
    let request = metadata_request(&connection);
    assert_eq!(request.url, "https://spanner.googleapis.com/v1/s:executeSql");
    assert_eq!(request.bearer, Some("tok".to_string()));
    assert_eq!(
        request.body,
        Body::Json(Json::Object(vec![member(
            "sql",
            text(
                "SELECT TABLE_SCHEMA, TABLE_NAME, COLUMN_NAME, SPANNER_TYPE, ORDINAL_POSITION, IS_NULLABLE \
                 FROM INFORMATION_SCHEMA.COLUMNS \
                 WHERE TABLE_SCHEMA NOT IN ('INFORMATION_SCHEMA') \
                 ORDER BY TABLE_SCHEMA, TABLE_NAME, ORDINAL_POSITION"
            )
        )]))
    );
}

#[test]
fn the_reply_is_turned_into_a_description() {
    let reply = |code: u16, body: &str| {
        HttpReply::Answered(Status::new(code).expect("a status"), body.to_string())
    };
    assert_eq!(load_metadata(reply(200, "{}")), Ok(schemas(vec![])));
    assert_eq!(
        load_metadata(reply(403, "denied")),
        Err("Cloud Spanner returned HTTP 403 Forbidden: denied".to_string())
    );
    assert_eq!(read_metadata(Err("why".to_string())), Err("why".to_string()));
    assert_eq!(METADATA_ROWS, 100_000);
}
