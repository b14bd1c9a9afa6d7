//! What the host is answered.

use vstd::prelude::*;
use crate::config::SpannerConfigView;
use crate::connector::Connector;
use crate::connector::ConnectorView;
use crate::connector::Dispatch;
use crate::connector::DispatchView;
use crate::connector::asked;
use crate::connector::asked_result;
use crate::connector::closed_fields;
use crate::connector::connected_fields;
use crate::connector::connection_result;
use crate::connector::description;
use crate::connector::dispatch;
use crate::connector::found;
use crate::connector::metadata_answer;
use crate::connector::query_answer;
use crate::connector::request_view;
use crate::connector::statement_of;
use crate::connector::statement_result;
use crate::http::HttpRequest;
use crate::http::HttpRequestView;
use crate::json::JsonView;
use crate::json::json_document;
use crate::json::members;
use crate::laws::http::fields_are_found_by_name;
use crate::metadata::metadata_sql;
use crate::redaction::redacted;
use crate::reply::Reply;
use crate::reply::ReplyView;
use crate::session::QueryOutputView;
use crate::session::SpannerConnection;
use crate::session::SpannerConnectionView;
use crate::session::execute_sql_request_of;

verus! {

/// The value of a field of an answer.
pub open spec fn answered(reply: ReplyView, name: Seq<char>) -> Option<JsonView> {
    match reply {
        ReplyView::Fields(fields) => JsonView::Object(fields).get(name),
        _ => None,
    }
}

/// How many fields an answer has.
pub open spec fn field_count(reply: ReplyView) -> nat {
    match reply {
        ReplyView::Fields(fields) => fields.len(),
        _ => 0,
    }
}

/// Whether an answer says how the connector is.
pub open spec fn tells_health(reply: ReplyView, connector: ConnectorView) -> bool {
    &&& answered(reply, "engine"@) == Some(JsonView::Text(connector.engine))
    &&& answered(reply, "abiVersion"@) == Some(connector.abi_version)
    &&& answered(reply, "driverLinked"@) == Some(JsonView::Bool(connector.driver_linked))
}

proof fn lemma_names()
    ensures
        "engine"@.len() == 6 && "engine"@[0] == 'e',
        "abiVersion"@.len() == 10,
        "driverLinked"@.len() == 12 && "driverLinked"@[0] == 'd',
        "manifest"@.len() == 8,
        "config"@.len() == 6 && "config"@[0] == 'c',
        "connectionId"@.len() == 12 && "connectionId"@[0] == 'c',
        "database"@.len() == 8,
        "serverVersion"@.len() == 13,
        "columns"@.len() == 7,
        "rows"@.len() == 4,
        "truncated"@.len() == 9,
        "metadata"@.len() == 8,
        "closed"@.len() == 6,
{
    reveal_strlit("engine");
    reveal_strlit("abiVersion");
    reveal_strlit("driverLinked");
    reveal_strlit("manifest");
    reveal_strlit("config");
    reveal_strlit("connectionId");
    reveal_strlit("database");
    reveal_strlit("serverVersion");
    reveal_strlit("columns");
    reveal_strlit("rows");
    reveal_strlit("truncated");
    reveal_strlit("metadata");
    reveal_strlit("closed");
}

proof fn lemma_health(
    fields: Seq<(Seq<char>, JsonView)>,
    connector: ConnectorView,
)
    requires
        fields.len() >= 3,
        fields[0] == ("engine"@, JsonView::Text(connector.engine)),
        fields[1] == ("abiVersion"@, connector.abi_version),
        fields[2] == ("driverLinked"@, JsonView::Bool(connector.driver_linked)),
    ensures
        tells_health(ReplyView::Fields(fields), connector),
{
    lemma_names();
    fields_are_found_by_name(fields, "engine"@, 0);
    fields_are_found_by_name(fields, "abiVersion"@, 1);
    fields_are_found_by_name(fields, "driverLinked"@, 2);
}

proof fn lemma_methods()
    ensures
        "health"@.len() == 6 && "health"@[0] == 'h',
        "ping"@.len() == 4,
        "describe"@.len() == 8 && "describe"@[0] == 'd',
        "capabilities"@.len() == 12,
        "manifest"@.len() == 8 && "manifest"@[0] == 'm' && "manifest"@[1] == 'a',
        "config"@.len() == 6 && "config"@[0] == 'c',
        "connect"@.len() == 7,
        "query"@.len() == 5 && "query"@[0] == 'q',
        "metadata"@.len() == 8 && "metadata"@[0] == 'm' && "metadata"@[1] == 'e',
        "close"@.len() == 5 && "close"@[0] == 'c',
{
    reveal_strlit("health");
    reveal_strlit("ping");
    reveal_strlit("describe");
    reveal_strlit("capabilities");
    reveal_strlit("manifest");
    reveal_strlit("config");
    reveal_strlit("connect");
    reveal_strlit("query");
    reveal_strlit("metadata");
    reveal_strlit("close");
}

/// `health` and `ping` say how the connector is, and nothing else.
pub proof fn health_is_told(connector: ConnectorView)
    ensures
        dispatch(connector, "health"@) == dispatch(connector, "ping"@),
        dispatch(connector, "health"@) matches DispatchView::Answer(reply) && tells_health(
            reply,
            connector,
        ) && field_count(reply) == 3,
{
    lemma_methods();
    let fields = crate::connector::health_fields(connector);
    lemma_health(fields, connector);
}

/// `describe` and `capabilities` say how the connector is, and give the two documents as what they
/// are read as, or as null.
pub proof fn the_connector_describes_itself(connector: ConnectorView)
    ensures
        dispatch(connector, "describe"@) == dispatch(connector, "capabilities"@),
        ({
            &&& dispatch(connector, "describe"@) matches DispatchView::Answer(reply)
            &&& tells_health(reply, connector)
            &&& field_count(reply) == 5
            &&& json_document(connector.manifest) matches Ok(value) ==> answered(
                reply,
                "manifest"@,
            ) == Some(value)
            &&& json_document(connector.manifest) is Err ==> answered(reply, "manifest"@) == Some(
                JsonView::Null,
            )
            &&& json_document(connector.config) matches Ok(value) ==> answered(reply, "config"@)
                == Some(value)
            &&& json_document(connector.config) is Err ==> answered(reply, "config"@) == Some(
                JsonView::Null,
            )
        }),
{
    lemma_methods();
    lemma_names();
    let reply = dispatch(connector, "describe"@)->Answer_0;
    let fields = reply->Fields_0;
    lemma_health(fields, connector);
    fields_are_found_by_name(fields, "manifest"@, 3);
    fields_are_found_by_name(fields, "config"@, 4);
}

/// `manifest` and `config` hand out their documents as they are.
pub proof fn documents_are_handed_out(connector: ConnectorView)
    ensures
        dispatch(connector, "manifest"@) == DispatchView::Answer(
            ReplyView::Document(connector.manifest),
        ),
        dispatch(connector, "config"@) == DispatchView::Answer(
            ReplyView::Document(connector.config),
        ),
{
    lemma_methods();
}

/// Work on connections is called for by its four names and by no others.
pub proof fn work_is_called_for_by_name(connector: ConnectorView, method: Seq<char>)
    ensures
        dispatch(connector, method) is Connect <==> method == "connect"@,
        dispatch(connector, method) is Query <==> method == "query"@,
        dispatch(connector, method) is Metadata <==> method == "metadata"@,
        dispatch(connector, method) is Close <==> method == "close"@,
{
    lemma_methods();
}

/// A method is unknown exactly where it is none of the ten, and the answer names it.
pub proof fn unknown_methods_are_named(connector: ConnectorView, method: Seq<char>)
    ensures
        dispatch(connector, method) == DispatchView::Answer(
            ReplyView::Error("connector.unknownMethod"@, "unknown connector method: "@ + method),
        ) <==> {
            &&& method != "health"@
            &&& method != "ping"@
            &&& method != "describe"@
            &&& method != "capabilities"@
            &&& method != "manifest"@
            &&& method != "config"@
            &&& method != "connect"@
            &&& method != "query"@
            &&& method != "metadata"@
            &&& method != "close"@
        },
{
    lemma_methods();
}

/// The answer to opening a connection names it, its database and its server.
pub proof fn opened_connections_are_announced(
    connector: ConnectorView,
    id: Seq<char>,
    connection: SpannerConnectionView,
)
    ensures
        ({
            let reply = ReplyView::Fields(connected_fields(connector, id, connection));
            &&& field_count(reply) == 5
            &&& answered(reply, "engine"@) == Some(JsonView::Text(connector.engine))
            &&& answered(reply, "connectionId"@) == Some(JsonView::Text(id))
            &&& answered(reply, "driverLinked"@) == Some(JsonView::Bool(connector.driver_linked))
            &&& answered(reply, "database"@) == Some(
                JsonView::Text(connection.config.database_path),
            )
            &&& answered(reply, "serverVersion"@) == Some(
                JsonView::Text("Google Cloud Spanner v1 API"@),
            )
        }),
{
    lemma_names();
    let fields = connected_fields(connector, id, connection);
    fields_are_found_by_name(fields, "engine"@, 0);
    fields_are_found_by_name(fields, "connectionId"@, 1);
    fields_are_found_by_name(fields, "driverLinked"@, 2);
    fields_are_found_by_name(fields, "database"@, 3);
    fields_are_found_by_name(fields, "serverVersion"@, 4);
}

/// A connection is found under its own name, whole, and the answer names one that is not open.
pub proof fn connections_are_found_by_name(
    connections: Map<Seq<char>, SpannerConnectionView>,
    id: Seq<char>,
)
    ensures
        connections.contains_key(id) ==> found(connections, id) == Ok::<
            SpannerConnectionView,
            ReplyView,
        >(connections[id]),
        !connections.contains_key(id) ==> found(connections, id) == Err::<
            SpannerConnectionView,
            ReplyView,
        >(ReplyView::Error("connector.connectionNotFound"@, "no open connection: "@ + id)),
{
}

/// What is asked on a connection is the statement itself; on one that is not open nothing is asked.
pub proof fn statements_are_asked_on_open_connections(
    connections: Map<Seq<char>, SpannerConnectionView>,
    id: Seq<char>,
    sql: Seq<char>,
)
    ensures
        connections.contains_key(id) ==> asked(connections, id, sql) == Ok::<
            (SpannerConnectionView, HttpRequestView),
            ReplyView,
        >((connections[id], execute_sql_request_of(connections[id], sql))),
        !connections.contains_key(id) ==> asked(connections, id, sql) == Err::<
            (SpannerConnectionView, HttpRequestView),
            ReplyView,
        >(ReplyView::Error("connector.connectionNotFound"@, "no open connection: "@ + id)),
{
}

/// The statement is the first of the three fields that is there, as it stands; without any, the
/// request is invalid.
pub proof fn the_first_statement_counts(
    sql: Option<Seq<char>>,
    query: Option<Seq<char>>,
    statement: Option<Seq<char>>,
    s: Seq<char>,
)
    ensures
        sql == Some(s) ==> statement_of(sql, query, statement) == Ok::<Seq<char>, ReplyView>(s),
        sql is None && query == Some(s) ==> statement_of(sql, query, statement) == Ok::<
            Seq<char>,
            ReplyView,
        >(s),
        sql is None && query is None && statement == Some(s) ==> statement_of(sql, query, statement)
            == Ok::<Seq<char>, ReplyView>(s),
        sql is None && query is None && statement is None ==> statement_of(sql, query, statement)
            == Err::<Seq<char>, ReplyView>(
            ReplyView::Error(
                "connector.invalidRequest"@,
                "query requires a string sql, query, or statement field."@,
            ),
        ),
{
}

/// A query is answered with its whole output: every column by its name, every row with every value
/// of it, and whether it was cut short.
pub proof fn queries_are_answered_with_the_whole_output(
    config: SpannerConfigView,
    id: Seq<char>,
    output: QueryOutputView,
)
    ensures
        ({
            let reply = query_answer(config, id, Ok(output));
            &&& field_count(reply) == 4
            &&& answered(reply, "connectionId"@) == Some(JsonView::Text(id))
            &&& answered(reply, "truncated"@) == Some(JsonView::Bool(output.truncated))
            &&& answered(reply, "columns"@) matches Some(JsonView::Array(columns))
            &&& columns.len() == output.columns.len()
            &&& forall|i: int|
                0 <= i < columns.len() ==> #[trigger] columns[i] == JsonView::Text(
                    output.columns[i],
                )
            &&& answered(reply, "rows"@) matches Some(JsonView::Array(rows))
            &&& rows.len() == output.rows.len()
            &&& forall|i: int|
                0 <= i < rows.len() ==> #[trigger] rows[i] == JsonView::Array(output.rows[i])
        }),
{
    lemma_names();
    let fields = query_answer(config, id, Ok(output))->Fields_0;
    fields_are_found_by_name(fields, "connectionId"@, 0);
    fields_are_found_by_name(fields, "columns"@, 1);
    fields_are_found_by_name(fields, "rows"@, 2);
    fields_are_found_by_name(fields, "truncated"@, 3);
}

/// A request for a description is answered with the description itself.
pub proof fn descriptions_are_answered_whole(
    config: SpannerConfigView,
    id: Seq<char>,
    metadata: JsonView,
)
    ensures
        ({
            let reply = metadata_answer(config, id, Ok(metadata));
            &&& field_count(reply) == 2
            &&& answered(reply, "connectionId"@) == Some(JsonView::Text(id))
            &&& answered(reply, "metadata"@) == Some(metadata)
        }),
{
    lemma_names();
    let fields = metadata_answer(config, id, Ok(metadata))->Fields_0;
    fields_are_found_by_name(fields, "connectionId"@, 0);
    fields_are_found_by_name(fields, "metadata"@, 1);
}

/// Failures are told by what failed, with the reason masked and otherwise as it is.
pub proof fn failures_are_told(config: SpannerConfigView, id: Seq<char>, message: Seq<char>)
    ensures
        query_answer(config, id, Err(message)) == ReplyView::Error(
            "connector.queryFailed"@,
            redacted(message, config.redaction_values),
        ),
        metadata_answer(config, id, Err(message)) == ReplyView::Error(
            "connector.metadataFailed"@,
            redacted(message, config.redaction_values),
        ),
{
}

/// The answer to closing a connection names it and says whether it was open.
pub proof fn closing_is_answered(id: Seq<char>, was_open: bool)
    ensures
        ({
            let reply = ReplyView::Fields(closed_fields(id, was_open));
            &&& field_count(reply) == 2
            &&& answered(reply, "connectionId"@) == Some(JsonView::Text(id))
            &&& answered(reply, "closed"@) == Some(JsonView::Bool(was_open))
        }),
{
    lemma_names();
    let fields = closed_fields(id, was_open);
    fields_are_found_by_name(fields, "connectionId"@, 0);
    fields_are_found_by_name(fields, "closed"@, 1);
}

/// A description is asked for with the statement that lists the columns of every table.
pub proof fn descriptions_are_asked_for_in_order()
    ensures
        metadata_sql()
            == "SELECT TABLE_SCHEMA, TABLE_NAME, COLUMN_NAME, SPANNER_TYPE, ORDINAL_POSITION, IS_NULLABLE FROM INFORMATION_SCHEMA.COLUMNS WHERE TABLE_SCHEMA NOT IN ('INFORMATION_SCHEMA') ORDER BY TABLE_SCHEMA, TABLE_NAME, ORDINAL_POSITION"@,
{
}

/// The views of answers and of what leads to them leave nothing out.
pub proof fn answers_are_viewed_whole(
    connector: Connector,
    call: Dispatch,
    reply: Reply,
    connection: SpannerConnection,
    request: Option<HttpRequest>,
)
    ensures
        connector@.engine == connector.engine@,
        connector@.abi_version == connector.abi_version@,
        connector@.driver_linked == connector.driver_linked,
        connector@.manifest == connector.manifest@,
        connector@.config == connector.config@,
        call matches Dispatch::Answer(answer) ==> call@ == DispatchView::Answer(answer@),
        call is Connect <==> call@ is Connect,
        call is Query <==> call@ is Query,
        call is Metadata <==> call@ is Metadata,
        call is Close <==> call@ is Close,
        reply matches Reply::Fields(fields) ==> reply@ == ReplyView::Fields(members(fields@)),
        reply matches Reply::Error(code, message) ==> reply@ == ReplyView::Error(code@, message@),
        reply matches Reply::Document(text) ==> reply@ == ReplyView::Document(text@),
        connection@.config == connection.config@,
        connection@.session == connection.session@,
        request is Some <==> request_view(request) is Some,
        request matches Some(sent) ==> request_view(request) == Some(sent@),
{
}

/// The views of what is found and asked leave nothing out.
pub proof fn outcomes_are_viewed_whole(
    connection: Result<SpannerConnection, Reply>,
    statement: Result<&str, Reply>,
    request: Result<(SpannerConnection, HttpRequest), Reply>,
)
    ensures
        connection matches Ok(c) ==> (connection_result(connection) matches Ok(view) && view == c@),
        connection matches Err(r) ==> (connection_result(connection) matches Err(view) && view
            == r@),
        statement matches Ok(s) ==> (statement_result(statement) matches Ok(view) && view == s@),
        statement matches Err(r) ==> (statement_result(statement) matches Err(view) && view == r@),
        request matches Ok((c, h)) ==> (asked_result(request) matches Ok(view) && view == (c@, h@)),
        request matches Err(r) ==> (asked_result(request) matches Err(view) && view == r@),
{
}

/// A description gives each document as what it was read as, or as null.
pub proof fn documents_are_described_as_read(
    connector: ConnectorView,
    manifest: Result<JsonView, Seq<char>>,
    config: Result<JsonView, Seq<char>>,
)
    ensures
        ({
            let reply = description(connector, manifest, config);
            &&& tells_health(reply, connector)
            &&& field_count(reply) == 5
            &&& manifest matches Ok(value) ==> answered(reply, "manifest"@) == Some(value)
            &&& manifest is Err ==> answered(reply, "manifest"@) == Some(JsonView::Null)
            &&& config matches Ok(value) ==> answered(reply, "config"@) == Some(value)
            &&& config is Err ==> answered(reply, "config"@) == Some(JsonView::Null)
        }),
{
    lemma_names();
    let fields = description(connector, manifest, config)->Fields_0;
    lemma_health(fields, connector);
    fields_are_found_by_name(fields, "manifest"@, 3);
    fields_are_found_by_name(fields, "config"@, 4);
}

} // verus!
