//! What holds of sessions and of the output of statements.

use vstd::prelude::*;
use crate::config::SpannerConfigView;
use crate::http::BodyView;
use crate::http::Method;
use crate::json::Json;
use crate::json::JsonView;
use crate::json::lookup;
use crate::json::values;
use crate::session::QueryOutput;
use crate::session::SpannerConnectionView;
use crate::session::create_session_request_of;
use crate::session::delete_session_request_of;
use crate::session::execute_sql_request_of;
use crate::session::item_names;
use crate::session::output_result;
use crate::session::output_view;
use crate::session::query_output;
use crate::session::session_name;
use crate::session::sql_outcome;
use crate::text::texts;

verus! {

/// As many rows come out as the cap allows: all of them where they are no more than the cap, and
/// just as many as the cap where they are more. Each is the row of the result set at its place,
/// value for value; a row that is no list is a row of one value. The output is marked as cut short
/// exactly where rows are missing.
pub proof fn rows_come_out_up_to_the_cap(value: JsonView, rows: Seq<JsonView>, cap: nat)
    requires
        value.get("rows"@) == Some(JsonView::Array(rows)),
    ensures
        rows.len() <= cap ==> query_output(value, cap).rows.len() == rows.len(),
        rows.len() > cap ==> query_output(value, cap).rows.len() == cap,
        query_output(value, cap).truncated <==> rows.len() > cap,
        forall|i: int|
            0 <= i < query_output(value, cap).rows.len() ==> {
                let out = #[trigger] query_output(value, cap).rows[i];
                &&& rows[i] matches JsonView::Array(items) ==> out == items
                &&& !(rows[i] is Array) ==> out == seq![rows[i]]
            },
{
}

/// Without a list of rows there are none, and nothing is cut short.
pub proof fn without_rows_there_is_no_output(value: JsonView, cap: nat)
    requires
        forall|rows: Seq<JsonView>| value.get("rows"@) != Some(JsonView::Array(rows)),
    ensures
        query_output(value, cap).rows.len() == 0,
        !query_output(value, cap).truncated,
{
    match value.get("rows"@) {
        Some(JsonView::Array(rows)) => {
            assert(value.get("rows"@) == Some(JsonView::Array(rows)));
        },
        _ => {},
    }
}

/// A larger cap gives the same rows and perhaps more behind them; the columns do not depend on it.
pub proof fn a_larger_cap_gives_more(value: JsonView, small: nat, large: nat)
    requires
        small <= large,
    ensures
        query_output(value, small).columns == query_output(value, large).columns,
        query_output(value, small).rows.len() <= query_output(value, large).rows.len(),
        forall|i: int|
            0 <= i < query_output(value, small).rows.len() ==> #[trigger] query_output(
                value,
                small,
            ).rows[i] == query_output(value, large).rows[i],
        query_output(value, large).truncated ==> query_output(value, small).truncated,
{
}

/// The fields of the row type of a result set.
pub open spec fn row_type_fields(value: JsonView) -> Option<JsonView> {
    match value.get("metadata"@) {
        Some(metadata) => match metadata.get("rowType"@) {
            Some(row_type) => row_type.get("fields"@),
            None => None,
        },
        None => None,
    }
}

/// The columns are the names in the row type: every field with a name gives a column, in order and
/// as it is called, and nothing else does.
pub proof fn columns_are_the_named_fields(value: JsonView, fields: Seq<JsonView>, cap: nat, k: int)
    requires
        row_type_fields(value) == Some(JsonView::Array(fields)),
        0 <= k < fields.len(),
    ensures
        ({
            let columns = query_output(value, cap).columns;
            let at = named_before(fields, k);
            &&& columns.len() == named_before(fields, fields.len() as int)
            &&& fields[k].text_field("name"@) matches Some(name) ==> at < columns.len()
                && columns[at as int] == name
        }),
{
    assert(query_output(value, cap).columns == item_names(fields));
    lemma_columns(fields, k);
}

/// How many of the first `k` fields have a name.
pub open spec fn named_before(fields: Seq<JsonView>, k: int) -> nat
    decreases k,
{
    if k <= 0 {
        0
    } else {
        named_before(fields, k - 1) + if fields[k - 1].text_field("name"@) is Some {
            1nat
        } else {
            0nat
        }
    }
}

proof fn lemma_named_before(fields: Seq<JsonView>, longer: Seq<JsonView>, k: int)
    requires
        0 <= k <= fields.len() <= longer.len(),
        forall|i: int| 0 <= i < fields.len() ==> #[trigger] fields[i] == longer[i],
    ensures
        named_before(fields, k) == named_before(longer, k),
    decreases k,
{
    if k > 0 {
        lemma_named_before(fields, longer, k - 1);
        assert(fields[k - 1] == longer[k - 1]);
    }
}

proof fn lemma_columns(fields: Seq<JsonView>, k: int)
    requires
        0 <= k < fields.len(),
    ensures
        item_names(fields).len() == named_before(fields, fields.len() as int),
        fields[k].text_field("name"@) matches Some(name) ==> named_before(fields, k) < item_names(
            fields,
        ).len() && item_names(fields)[named_before(fields, k) as int] == name,
    decreases fields.len(),
{
    let head = fields.drop_last();
    if head.len() > 0 {
        let j = if k < head.len() {
            k
        } else {
            0
        };
        lemma_columns(head, j);
    } else {
        assert(item_names(head).len() == 0);
    }
    lemma_named_before(head, fields, head.len() as int);
    if k < head.len() {
        lemma_named_before(head, fields, k);
        assert(head[k] == fields[k]);
    }
}

/// Without a list of fields there are no columns.
pub proof fn without_fields_there_are_no_columns(value: JsonView, cap: nat)
    requires
        row_type_fields(value) matches Some(fields) ==> !(fields is Array),
    ensures
        query_output(value, cap).columns.len() == 0,
{
}

/// A session is asked for with an empty object, on the database of the configuration and under its
/// token.
pub proof fn sessions_are_asked_for_on_their_database(config: SpannerConfigView)
    ensures
        ({
            let request = create_session_request_of(config);
            &&& request.method == Method::Post
            &&& request.url == "https://spanner.googleapis.com/v1/"@ + config.database_path
                + ":sessions"@
            &&& request.bearer == Some(config.access_token)
            &&& request.header is None
            &&& request.body matches BodyView::Json(JsonView::Object(fields)) && fields.len() == 0
        }),
{
    assert("https://spanner.googleapis.com/v1/"@ + (config.database_path + ":sessions"@)
        =~= "https://spanner.googleapis.com/v1/"@ + config.database_path + ":sessions"@);
}

/// A statement is sent as it is, to the session of the connection and under its token; two
/// statements are never sent alike.
pub proof fn statements_are_sent_as_they_are(
    connection: SpannerConnectionView,
    sql: Seq<char>,
    other: Seq<char>,
)
    ensures
        ({
            let request = execute_sql_request_of(connection, sql);
            &&& request.method == Method::Post
            &&& request.url == "https://spanner.googleapis.com/v1/"@ + connection.session
                + ":executeSql"@
            &&& request.bearer == Some(connection.config.access_token)
            &&& request.header is None
            &&& request.body matches BodyView::Json(body) && body.text_field("sql"@) == Some(sql)
            &&& request.body matches BodyView::Json(JsonView::Object(fields)) && fields.len() == 1
        }),
        execute_sql_request_of(connection, sql) == execute_sql_request_of(connection, other)
            ==> sql == other,
{
    assert("https://spanner.googleapis.com/v1/"@ + (connection.session + ":executeSql"@)
        =~= "https://spanner.googleapis.com/v1/"@ + connection.session + ":executeSql"@);
    lemma_sql_field(connection, sql);
    lemma_sql_field(connection, other);
}

proof fn lemma_sql_field(connection: SpannerConnectionView, sql: Seq<char>)
    ensures
        execute_sql_request_of(connection, sql).body matches BodyView::Json(body)
            && body.text_field("sql"@) == Some(sql),
{
    let fields = seq![("sql"@, JsonView::Text(sql))];
    assert(lookup(fields, "sql"@) == Some(JsonView::Text(sql)));
}

/// The session that is deleted is the one of the connection.
pub proof fn the_session_itself_is_deleted(connection: SpannerConnectionView)
    ensures
        ({
            let request = delete_session_request_of(connection);
            &&& request.method == Method::Delete
            &&& request.url == "https://spanner.googleapis.com/v1/"@ + connection.session
            &&& request.bearer == Some(connection.config.access_token)
            &&& request.header is None
            &&& request.body is Empty
        }),
{
}

/// A session has the name that the reply gives it, and there is one exactly where the reply does.
pub proof fn sessions_are_named_by_the_reply(value: Result<JsonView, Seq<char>>, name: Seq<char>)
    ensures
        session_name(value) == Ok::<Seq<char>, Seq<char>>(name) <==> (value matches Ok(document)
            && document.text_field("name"@) == Some(name)),
        value matches Err(message) ==> session_name(value) == Err::<Seq<char>, Seq<char>>(message),
        value matches Ok(document) ==> document.text_field("name"@) is None ==> session_name(value)
            == Err::<Seq<char>, Seq<char>>(
            "Cloud Spanner create session response missing name."@,
        ),
{
}

/// A statement has output exactly where its reply could be read, and the output is that of the
/// reply.
pub proof fn output_comes_from_the_reply(value: Result<JsonView, Seq<char>>, cap: nat)
    ensures
        value is Ok <==> sql_outcome(value, cap) is Ok,
        value matches Ok(document) ==> sql_outcome(value, cap)->Ok_0 == query_output(document, cap),
        value matches Err(message) ==> sql_outcome(value, cap)->Err_0 == message,
{
}

/// The view of output leaves nothing out.
pub proof fn output_is_viewed_whole(out: QueryOutput, result: Result<QueryOutput, String>)
    ensures
        output_view(out).columns == texts(out.0@),
        output_view(out).rows.len() == out.1@.len(),
        forall|i: int|
            0 <= i < out.1@.len() ==> #[trigger] output_view(out).rows[i] == values(out.1@[i]@),
        output_view(out).truncated == out.2,
        result matches Ok(output) ==> (output_result(result) matches Ok(view) && view
            == output_view(output)),
        result matches Err(s) ==> (output_result(result) matches Err(message) && message == s@),
{
}

/// The view of a list of values leaves nothing out.
pub proof fn values_are_viewed_whole(items: Seq<Json>)
    ensures
        values(items).len() == items.len(),
        forall|i: int| 0 <= i < items.len() ==> #[trigger] values(items)[i] == items[i]@,
{
}

} // verus!
