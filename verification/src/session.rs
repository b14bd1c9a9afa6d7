//! Sessions on a database, and the statements that are executed in them.

use vstd::prelude::*;
use crate::config::SpannerConfig;
use crate::config::SpannerConfigView;
use crate::config::inner;
use crate::http::Body;
use crate::http::BodyView;
use crate::http::HttpReply;
use crate::http::HttpRequest;
use crate::http::HttpRequestView;
use crate::http::Method;
use crate::http::request_json;
use crate::http::request_json_outcome;
use crate::json::Json;
use crate::json::JsonView;
use crate::json::json_result;
use crate::json::lemma_array_view;
use crate::json::lemma_object_view;
use crate::json::member;
use crate::json::members;
use crate::json::text;
use crate::json::values;
use crate::text::cat2;
use crate::text::text_result;
use crate::text::texts;

verus! {

broadcast use vstd::string::group_string_axioms;

/// An open connection: how to reach the database, and the session that was created there.
#[derive(Debug, PartialEq, Eq)]
pub struct SpannerConnection {
    pub config: SpannerConfig,
    pub session: String,
}

/// The mathematical form of an open connection.
pub struct SpannerConnectionView {
    pub config: SpannerConfigView,
    pub session: Seq<char>,
}

impl View for SpannerConnection {
    type V = SpannerConnectionView;

    open spec fn view(&self) -> SpannerConnectionView {
        SpannerConnectionView { config: self.config@, session: self.session@ }
    }
}

impl SpannerConnection {
    /// A copy of this connection.
    pub fn copy(&self) -> (out: SpannerConnection)
        ensures
            out@ == self@,
    {
        SpannerConnection { config: self.config.copy(), session: self.session.clone() }
    }
}

/// A request to Cloud Spanner about a resource, under the token of a configuration.
pub open spec fn spanner_request(
    config: SpannerConfigView,
    method: Method,
    resource: Seq<char>,
    body: BodyView,
) -> HttpRequestView {
    HttpRequestView {
        method,
        url: "https://spanner.googleapis.com/v1/"@ + resource,
        bearer: Some(config.access_token),
        header: None,
        body,
    }
}

/// Asks for a session on the database of a configuration.
pub open spec fn create_session_request_of(config: SpannerConfigView) -> HttpRequestView {
    spanner_request(
        config,
        Method::Post,
        config.database_path + ":sessions"@,
        BodyView::Json(JsonView::Object(Seq::empty())),
    )
}

/// Asks for a session on the database of a configuration.
pub fn create_session_request(config: &SpannerConfig) -> (out: HttpRequest)
    ensures
        out@ == create_session_request_of(config@),
{
    broadcast use lemma_object_view;

    let fields: Vec<(String, Json)> = Vec::new();
    assert(members(fields@) =~= Seq::<(Seq<char>, JsonView)>::empty());
    let resource = cat2(config.database_path.as_str(), ":sessions");
    HttpRequest {
        method: Method::Post,
        url: cat2("https://spanner.googleapis.com/v1/", resource.as_str()),
        bearer: Some(config.access_token.clone()),
        header: None,
        body: Body::Json(Json::Object(fields)),
    }
}

/// The name of the session that was created, or what went wrong.
pub open spec fn session_name(value: Result<JsonView, Seq<char>>) -> Result<Seq<char>, Seq<char>> {
    match value {
        Ok(value) => match value.text_field("name"@) {
            Some(name) => Ok(name),
            None => Err("Cloud Spanner create session response missing name."@),
        },
        Err(message) => Err(message),
    }
}

/// Takes the name of the session out of what was read from a reply.
pub fn find_session_name(value: Result<Json, String>) -> (out: Result<String, String>)
    ensures
        text_result(out) == session_name(json_result(value)),
{
    match value {
        Ok(value) => match value.text_field("name") {
            Some(name) => Ok(name),
            None => Err("Cloud Spanner create session response missing name.".to_string()),
        },
        Err(message) => Err(message),
    }
}

/// Takes the name of the session out of the reply to the request for it.
pub fn create_session(reply: HttpReply) -> (out: Result<String, String>)
    ensures
        text_result(out) == session_name(request_json_outcome(reply@)),
{
    find_session_name(request_json(reply))
}

/// Asks for a session to be deleted.
pub open spec fn delete_session_request_of(connection: SpannerConnectionView) -> HttpRequestView {
    spanner_request(connection.config, Method::Delete, connection.session, BodyView::Empty)
}

/// Asks for a session to be deleted.
pub fn delete_session(connection: &SpannerConnection) -> (out: HttpRequest)
    ensures
        out@ == delete_session_request_of(connection@),
{
    HttpRequest {
        method: Method::Delete,
        url: cat2("https://spanner.googleapis.com/v1/", connection.session.as_str()),
        bearer: Some(connection.config.access_token.clone()),
        header: None,
        body: Body::Empty,
    }
}

/// Asks for a statement to be executed.
pub open spec fn execute_sql_request_of(connection: SpannerConnectionView, sql: Seq<char>) -> HttpRequestView {
    spanner_request(
        connection.config,
        Method::Post,
        connection.session + ":executeSql"@,
        BodyView::Json(JsonView::Object(seq![("sql"@, JsonView::Text(sql))])),
    )
}

/// Asks for a statement to be executed.
pub fn execute_sql_request(connection: &SpannerConnection, sql: &str) -> (out: HttpRequest)
    ensures
        out@ == execute_sql_request_of(connection@, sql@),
{
    broadcast use lemma_object_view;

    let mut fields: Vec<(String, Json)> = Vec::new();
    fields.push(member("sql", text(sql)));
    assert(members(fields@) =~= seq![("sql"@, JsonView::Text(sql@))]);
    let resource = cat2(connection.session.as_str(), ":executeSql");
    HttpRequest {
        method: Method::Post,
        url: cat2("https://spanner.googleapis.com/v1/", resource.as_str()),
        bearer: Some(connection.config.access_token.clone()),
        header: None,
        body: Body::Json(Json::Object(fields)),
    }
}

/// The names of the columns, the rows, and whether there were more of them.
pub type QueryOutput = (Vec<String>, Vec<Vec<Json>>, bool);

/// The mathematical form of the output of a query.
pub struct QueryOutputView {
    pub columns: Seq<Seq<char>>,
    pub rows: Seq<Seq<JsonView>>,
    pub truncated: bool,
}

/// The views of rows.
pub open spec fn row_views(rows: Seq<Vec<Json>>) -> Seq<Seq<JsonView>> {
    rows.map_values(|row: Vec<Json>| values(row@))
}

/// The view of the output of a query.
pub open spec fn output_view(out: QueryOutput) -> QueryOutputView {
    QueryOutputView { columns: texts(out.0@), rows: row_views(out.1@), truncated: out.2 }
}

/// The items of an array; nothing where the value is missing or no array.
pub open spec fn items_of(value: Option<JsonView>) -> Seq<JsonView> {
    match value {
        Some(JsonView::Array(items)) => items,
        _ => Seq::empty(),
    }
}

/// The `name` texts of the items that have one, in order.
pub open spec fn item_names(items: Seq<JsonView>) -> Seq<Seq<char>>
    decreases items.len(),
{
    if items.len() == 0 {
        Seq::empty()
    } else {
        let head = item_names(items.drop_last());
        match items.last().text_field("name"@) {
            Some(name) => head.push(name),
            None => head,
        }
    }
}

/// The names of the columns of a result set.
pub open spec fn result_columns(value: JsonView) -> Seq<Seq<char>> {
    item_names(items_of(inner(inner(value.get("metadata"@), "rowType"@), "fields"@)))
}

/// The rows of a result set, as they came.
pub open spec fn result_rows(value: JsonView) -> Seq<JsonView> {
    items_of(value.get("rows"@))
}

/// A row as a list of values; one that is no list is a list of itself.
pub open spec fn row_of(row: JsonView) -> Seq<JsonView> {
    match row {
        JsonView::Array(items) => items,
        other => seq![other],
    }
}

/// The output that a result set stands for, with at most `cap` rows.
pub open spec fn query_output(value: JsonView, cap: nat) -> QueryOutputView {
    let rows = result_rows(value);
    let kept = if rows.len() > cap {
        rows.take(cap as int)
    } else {
        rows
    };
    QueryOutputView {
        columns: result_columns(value),
        rows: kept.map_values(|row: JsonView| row_of(row)),
        truncated: rows.len() > cap,
    }
}

fn array_items<'a>(value: Option<&'a Json>) -> (found: Option<&'a Vec<Json>>)
    ensures
        items_of(crate::json::borrowed_json(value)) == match found {
            Some(items) => values(items@),
            None => Seq::empty(),
        },
{
    broadcast use lemma_array_view;

    match value {
        Some(Json::Array(items)) => Some(items),
        _ => None,
    }
}

fn column_names(items: &Vec<Json>) -> (out: Vec<String>)
    ensures
        texts(out@) == item_names(values(items@)),
{
    let mut out: Vec<String> = Vec::new();
    let mut i: usize = 0;
    assert(texts(out@) =~= item_names(values(items@).take(0)));
    while i < items.len()
        invariant
            i <= items@.len(),
            texts(out@) == item_names(values(items@).take(i as int)),
        decreases items@.len() - i,
    {
        let ghost was = texts(out@);
        assert(values(items@).take(i + 1).drop_last() =~= values(items@).take(i as int));
        if let Some(name) = items[i].text_field("name") {
            out.push(name);
            assert(texts(out@) =~= was.push(name@));
        }
        i += 1;
    }
    assert(values(items@).take(i as int) =~= values(items@));
    out
}

fn copy_row(row: &Json) -> (out: Vec<Json>)
    ensures
        values(out@) == row_of(row@),
{
    broadcast use lemma_array_view;

    match row.copy() {
        Json::Array(items) => items,
        other => {
            let mut out: Vec<Json> = Vec::new();
            out.push(other);
            assert(values(out@) =~= seq![other@]);
            out
        },
    }
}

/// The output that a result set stands for, with at most `cap` rows.
pub fn spanner_result_to_output(value: Json, cap: usize) -> (out: QueryOutput)
    ensures
        output_view(out) == query_output(value@, cap as nat),
{
    let row_type = match value.get("metadata") {
        Some(metadata) => metadata.get("rowType"),
        None => None,
    };
    let fields = match row_type {
        Some(row_type) => row_type.get("fields"),
        None => None,
    };
    let columns = match array_items(fields) {
        Some(items) => column_names(items),
        None => {
            let none: Vec<String> = Vec::new();
            assert(texts(none@) =~= Seq::<Seq<char>>::empty());
            none
        },
    };
    let mut rows: Vec<Vec<Json>> = Vec::new();
    let ghost all = result_rows(value@);
    match array_items(value.get("rows")) {
        Some(items) => {
            let mut i: usize = 0;
            assert(row_views(rows@) =~= all.take(0).map_values(|row: JsonView| row_of(row)));
            while i < items.len() && i < cap
                invariant
                    i <= items@.len(),
                    i <= cap,
                    all == values(items@),
                    row_views(rows@) == all.take(i as int).map_values(|row: JsonView| row_of(row)),
                decreases items@.len() - i,
            {
                let ghost was = row_views(rows@);
                let row = copy_row(&items[i]);
                rows.push(row);
                assert(row_views(rows@) =~= was.push(values(row@)));
                assert(row_views(rows@) =~= all.take(i + 1).map_values(
                    |row: JsonView| row_of(row),
                ));
                i += 1;
            }
            assert(i == items@.len() ==> all.take(i as int) =~= all);
            (columns, rows, items.len() > cap)
        },
        None => {
            assert(row_views(rows@) =~= all.map_values(|row: JsonView| row_of(row)));
            (columns, rows, false)
        },
    }
}

/// The view of the output of a query or an error message.
pub open spec fn output_result(out: Result<QueryOutput, String>) -> Result<
    QueryOutputView,
    Seq<char>,
> {
    match out {
        Ok(output) => Ok(output_view(output)),
        Err(message) => Err(message@),
    }
}

/// The output of a query, or what went wrong.
pub open spec fn sql_outcome(value: Result<JsonView, Seq<char>>, cap: nat) -> Result<
    QueryOutputView,
    Seq<char>,
> {
    match value {
        Ok(value) => Ok(query_output(value, cap)),
        Err(message) => Err(message),
    }
}

/// Takes the output of a query out of what was read from a reply.
pub fn read_output(value: Result<Json, String>, cap: usize) -> (out: Result<QueryOutput, String>)
    ensures
        output_result(out) == sql_outcome(json_result(value), cap as nat),
{
    match value {
        Ok(value) => Ok(spanner_result_to_output(value, cap)),
        Err(message) => Err(message),
    }
}

/// Takes the output of a query out of the reply to it.
pub fn execute_sql(reply: HttpReply, cap: usize) -> (out: Result<QueryOutput, String>)
    ensures
        output_result(out) == sql_outcome(request_json_outcome(reply@), cap as nat),
{
    read_output(request_json(reply), cap)
}

/// No more rows come out than were asked for; the output says that it was cut short exactly where
/// rows were left out; and the rows that come out are the first ones, in order.
pub proof fn output_keeps_the_first_rows(value: JsonView, cap: nat)
    ensures
        query_output(value, cap).rows.len() <= cap,
        query_output(value, cap).truncated <==> query_output(value, cap).rows.len() < result_rows(
            value,
        ).len(),
        forall|i: int|
            0 <= i < query_output(value, cap).rows.len() ==> #[trigger] query_output(
                value,
                cap,
            ).rows[i] == row_of(result_rows(value)[i]),
{
}

} // verus!
