//! The methods of the connector.

use vstd::prelude::*;
use crate::config::ServiceAccountKeyView;
use crate::config::SpannerConfigView;
use crate::config::access_token_is_redacted;
use crate::config::config_of;
use crate::connect::StepView;
use crate::connect::with_session;
use crate::connections::Connections;
use crate::http::HttpRequest;
use crate::http::HttpRequestView;
use crate::json::Json;
use crate::json::JsonView;
use crate::json::json_document;
use crate::json::json_result;
use crate::json::lemma_array_view;
use crate::json::member;
use crate::json::members;
use crate::json::parse_json;
use crate::json::text;
use crate::json::values;
use crate::metadata::metadata_request;
use crate::metadata::metadata_sql;
use crate::redaction::mask;
use crate::redaction::occurs;
use crate::redaction::redacted;
use crate::redaction::stands_out;
use crate::reply::Reply;
use crate::reply::ReplyView;
use crate::reply::error;
use crate::session::QueryOutput;
use crate::session::QueryOutputView;
use crate::session::SpannerConnection;
use crate::session::SpannerConnectionView;
use crate::session::delete_session;
use crate::session::delete_session_request_of;
use crate::session::execute_sql_request;
use crate::session::execute_sql_request_of;
use crate::session::output_result;
use crate::session::row_views;
use crate::text::borrowed_text;
use crate::text::cat2;
use crate::text::same_text;
use crate::text::texts;
use crate::text::trimmed;

verus! {

broadcast use vstd::string::group_string_axioms;

/// What the connector says of itself.
pub struct Connector {
    /// The name of the engine.
    pub engine: String,
    /// The version of the interface to the host.
    pub abi_version: Json,
    /// Whether the driver is linked in.
    pub driver_linked: bool,
    /// The manifest of the extension, a JSON text.
    pub manifest: String,
    /// The configuration of the connector, a JSON text.
    pub config: String,
}

/// The mathematical form of what the connector says of itself.
pub struct ConnectorView {
    pub engine: Seq<char>,
    pub abi_version: JsonView,
    pub driver_linked: bool,
    pub manifest: Seq<char>,
    pub config: Seq<char>,
}

impl View for Connector {
    type V = ConnectorView;

    open spec fn view(&self) -> ConnectorView {
        ConnectorView {
            engine: self.engine@,
            abi_version: self.abi_version@,
            driver_linked: self.driver_linked,
            manifest: self.manifest@,
            config: self.config@,
        }
    }
}

/// What a call comes to: an answer at once, or work on the connections.
pub enum Dispatch {
    Answer(Reply),
    Connect,
    Query,
    Metadata,
    Close,
}

/// The mathematical form of what a call comes to.
pub enum DispatchView {
    Answer(ReplyView),
    Connect,
    Query,
    Metadata,
    Close,
}

impl View for Dispatch {
    type V = DispatchView;

    open spec fn view(&self) -> DispatchView {
        match self {
            Dispatch::Answer(reply) => DispatchView::Answer(reply@),
            Dispatch::Connect => DispatchView::Connect,
            Dispatch::Query => DispatchView::Query,
            Dispatch::Metadata => DispatchView::Metadata,
            Dispatch::Close => DispatchView::Close,
        }
    }
}

/// What is said of the health of the connector.
pub open spec fn health_fields(connector: ConnectorView) -> Seq<(Seq<char>, JsonView)> {
    seq![
        ("engine"@, JsonView::Text(connector.engine)),
        ("abiVersion"@, connector.abi_version),
        ("driverLinked"@, JsonView::Bool(connector.driver_linked)),
    ]
}

/// What a JSON text was read as, or null.
pub open spec fn or_null(document: Result<JsonView, Seq<char>>) -> JsonView {
    match document {
        Ok(value) => value,
        Err(_) => JsonView::Null,
    }
}

/// What is said of what the connector can do.
pub open spec fn description(
    connector: ConnectorView,
    manifest: Result<JsonView, Seq<char>>,
    config: Result<JsonView, Seq<char>>,
) -> ReplyView {
    ReplyView::Fields(
        health_fields(connector) + seq![
            ("manifest"@, or_null(manifest)),
            ("config"@, or_null(config)),
        ],
    )
}

/// What a call of a method comes to.
pub open spec fn dispatch(connector: ConnectorView, method: Seq<char>) -> DispatchView {
    if method == "health"@ || method == "ping"@ {
        DispatchView::Answer(ReplyView::Fields(health_fields(connector)))
    } else if method == "describe"@ || method == "capabilities"@ {
        DispatchView::Answer(
            description(
                connector,
                json_document(connector.manifest),
                json_document(connector.config),
            ),
        )
    } else if method == "manifest"@ {
        DispatchView::Answer(ReplyView::Document(connector.manifest))
    } else if method == "config"@ {
        DispatchView::Answer(ReplyView::Document(connector.config))
    } else if method == "connect"@ {
        DispatchView::Connect
    } else if method == "query"@ {
        DispatchView::Query
    } else if method == "metadata"@ {
        DispatchView::Metadata
    } else if method == "close"@ {
        DispatchView::Close
    } else {
        DispatchView::Answer(
            ReplyView::Error(
                "connector.unknownMethod"@,
                "unknown connector method: "@ + method,
            ),
        )
    }
}

fn describe_health(connector: &Connector) -> (out: Vec<(String, Json)>)
    ensures
        members(out@) == health_fields(connector@),
{
    let mut fields: Vec<(String, Json)> = Vec::new();
    fields.push(member("engine", text(connector.engine.as_str())));
    fields.push(member("abiVersion", connector.abi_version.copy()));
    fields.push(member("driverLinked", Json::Bool(connector.driver_linked)));
    assert(members(fields@) =~= health_fields(connector@));
    fields
}

fn take_or_null(document: Result<Json, String>) -> (out: Json)
    ensures
        out@ == or_null(json_result(document)),
{
    match document {
        Ok(value) => value,
        Err(_) => Json::Null,
    }
}

/// Says what the connector can do. `manifest` and `config` are what its two texts were read as.
pub fn describe(
    connector: &Connector,
    manifest: Result<Json, String>,
    config: Result<Json, String>,
) -> (out: Reply)
    ensures
        out@ == description(connector@, json_result(manifest), json_result(config)),
{
    let ghost wanted = description(connector@, json_result(manifest), json_result(config));
    let mut fields = describe_health(connector);
    let ghost health = members(fields@);
    fields.push(member("manifest", take_or_null(manifest)));
    fields.push(member("config", take_or_null(config)));
    assert(members(fields@).take(3) =~= health);
    assert(members(fields@) =~= wanted->Fields_0);
    Reply::Fields(fields)
}

/// Answers a call of a method, or says which work it calls for.
pub fn call_json(connector: &Connector, method: &str) -> (out: Dispatch)
    ensures
        out@ == dispatch(connector@, method@),
{
    if same_text(method, "health") || same_text(method, "ping") {
        Dispatch::Answer(Reply::Fields(describe_health(connector)))
    } else if same_text(method, "describe") || same_text(method, "capabilities") {
        let manifest = parse_json(connector.manifest.as_str());
        let config = parse_json(connector.config.as_str());
        Dispatch::Answer(describe(connector, manifest, config))
    } else if same_text(method, "manifest") {
        Dispatch::Answer(Reply::Document(connector.manifest.clone()))
    } else if same_text(method, "config") {
        Dispatch::Answer(Reply::Document(connector.config.clone()))
    } else if same_text(method, "connect") {
        Dispatch::Connect
    } else if same_text(method, "query") {
        Dispatch::Query
    } else if same_text(method, "metadata") {
        Dispatch::Metadata
    } else if same_text(method, "close") {
        Dispatch::Close
    } else {
        let message = cat2("unknown connector method: ", method);
        Dispatch::Answer(error("connector.unknownMethod", message.as_str()))
    }
}

/// What is answered where a connection has been opened.
pub open spec fn connected_fields(
    connector: ConnectorView,
    id: Seq<char>,
    connection: SpannerConnectionView,
) -> Seq<(Seq<char>, JsonView)> {
    seq![
        ("engine"@, JsonView::Text(connector.engine)),
        ("connectionId"@, JsonView::Text(id)),
        ("driverLinked"@, JsonView::Bool(connector.driver_linked)),
        ("database"@, JsonView::Text(connection.config.database_path)),
        ("serverVersion"@, JsonView::Text("Google Cloud Spanner v1 API"@)),
    ]
}

/// Keeps a connection that has been opened, in place of the one of that name, and says so.
pub fn connect(
    connector: &Connector,
    connections: &mut Connections,
    id: &str,
    connection: SpannerConnection,
) -> (out: Reply)
    requires
        old(connections).wf(),
    ensures
        final(connections).wf(),
        final(connections)@ == old(connections)@.insert(id@, connection@),
        out@ == ReplyView::Fields(connected_fields(connector@, id@, connection@)),
{
    let mut fields: Vec<(String, Json)> = Vec::new();
    fields.push(member("engine", text(connector.engine.as_str())));
    fields.push(member("connectionId", text(id)));
    fields.push(member("driverLinked", Json::Bool(connector.driver_linked)));
    fields.push(member("database", text(connection.config.database_path.as_str())));
    fields.push(member("serverVersion", text("Google Cloud Spanner v1 API")));
    assert(members(fields@) =~= connected_fields(connector@, id@, connection@));
    connections.insert(id, connection);
    Reply::Fields(fields)
}

/// The open connection of that name, or the answer where there is none.
pub open spec fn found(connections: Map<Seq<char>, SpannerConnectionView>, id: Seq<char>) -> Result<
    SpannerConnectionView,
    ReplyView,
> {
    if connections.contains_key(id) {
        Ok(connections[id])
    } else {
        Err(ReplyView::Error("connector.connectionNotFound"@, "no open connection: "@ + id))
    }
}

/// The view of a connection or an answer.
pub open spec fn connection_result(out: Result<SpannerConnection, Reply>) -> Result<
    SpannerConnectionView,
    ReplyView,
> {
    match out {
        Ok(connection) => Ok(connection@),
        Err(reply) => Err(reply@),
    }
}

/// A copy of the open connection of that name.
pub fn connection(connections: &Connections, id: &str) -> (out: Result<SpannerConnection, Reply>)
    requires
        connections.wf(),
    ensures
        connection_result(out) == found(connections@, id@),
{
    match connections.get(id) {
        Some(connection) => Ok(connection.copy()),
        None => {
            let message = cat2("no open connection: ", id);
            Err(error("connector.connectionNotFound", message.as_str()))
        },
    }
}

/// The statement of a query: the first of the three fields that is there.
pub open spec fn statement_of(
    sql: Option<Seq<char>>,
    query: Option<Seq<char>>,
    statement: Option<Seq<char>>,
) -> Result<Seq<char>, ReplyView> {
    match (sql, query, statement) {
        (Some(s), _, _) => Ok(s),
        (None, Some(s), _) => Ok(s),
        (None, None, Some(s)) => Ok(s),
        (None, None, None) => Err(
            ReplyView::Error(
                "connector.invalidRequest"@,
                "query requires a string sql, query, or statement field."@,
            ),
        ),
    }
}

/// The view of a statement or an answer.
pub open spec fn statement_result(out: Result<&str, Reply>) -> Result<Seq<char>, ReplyView> {
    match out {
        Ok(s) => Ok(s@),
        Err(reply) => Err(reply@),
    }
}

/// The statement of a query, from the three fields that can hold it.
pub fn query_statement<'a>(
    sql: Option<&'a str>,
    query: Option<&'a str>,
    statement: Option<&'a str>,
) -> (out: Result<&'a str, Reply>)
    ensures
        statement_result(out) == statement_of(
            borrowed_text(sql),
            borrowed_text(query),
            borrowed_text(statement),
        ),
{
    match (sql, query, statement) {
        (Some(s), _, _) => Ok(s),
        (None, Some(s), _) => Ok(s),
        (None, None, Some(s)) => Ok(s),
        (None, None, None) => Err(
            error(
                "connector.invalidRequest",
                "query requires a string sql, query, or statement field.",
            ),
        ),
    }
}

/// What a statement or a description asks of an open connection: the connection, and the request
/// to send on it.
pub open spec fn asked(
    connections: Map<Seq<char>, SpannerConnectionView>,
    id: Seq<char>,
    sql: Seq<char>,
) -> Result<(SpannerConnectionView, HttpRequestView), ReplyView> {
    match found(connections, id) {
        Ok(connection) => Ok((connection, execute_sql_request_of(connection, sql))),
        Err(reply) => Err(reply),
    }
}

/// The view of a connection and a request, or an answer.
pub open spec fn asked_result(out: Result<(SpannerConnection, HttpRequest), Reply>) -> Result<
    (SpannerConnectionView, HttpRequestView),
    ReplyView,
> {
    match out {
        Ok((connection, request)) => Ok((connection@, request@)),
        Err(reply) => Err(reply@),
    }
}

/// Asks for a statement to be executed on an open connection.
pub fn query(connections: &Connections, id: &str, sql: &str) -> (out: Result<
    (SpannerConnection, HttpRequest),
    Reply,
>)
    requires
        connections.wf(),
    ensures
        asked_result(out) == asked(connections@, id@, sql@),
{
    match connection(connections, id) {
        Ok(connection) => {
            let request = execute_sql_request(&connection, sql);
            Ok((connection, request))
        },
        Err(reply) => Err(reply),
    }
}

/// Asks for the columns of every table, on an open connection.
pub fn metadata(connections: &Connections, id: &str) -> (out: Result<
    (SpannerConnection, HttpRequest),
    Reply,
>)
    requires
        connections.wf(),
    ensures
        asked_result(out) == asked(connections@, id@, metadata_sql()),
{
    match connection(connections, id) {
        Ok(connection) => {
            let request = metadata_request(&connection);
            Ok((connection, request))
        },
        Err(reply) => Err(reply),
    }
}

/// What is answered where the work on a connection failed.
pub open spec fn failure(code: Seq<char>, config: SpannerConfigView, message: Seq<char>) -> ReplyView {
    ReplyView::Error(code, redacted(message, config.redaction_values))
}

/// What is answered to a query.
pub open spec fn query_answer(
    config: SpannerConfigView,
    id: Seq<char>,
    outcome: Result<QueryOutputView, Seq<char>>,
) -> ReplyView {
    match outcome {
        Ok(output) => ReplyView::Fields(
            seq![
                ("connectionId"@, JsonView::Text(id)),
                (
                    "columns"@,
                    JsonView::Array(output.columns.map_values(|s: Seq<char>| JsonView::Text(s))),
                ),
                (
                    "rows"@,
                    JsonView::Array(
                        output.rows.map_values(|row: Seq<JsonView>| JsonView::Array(row)),
                    ),
                ),
                ("truncated"@, JsonView::Bool(output.truncated)),
            ],
        ),
        Err(message) => failure("connector.queryFailed"@, config, message),
    }
}

fn text_items(list: Vec<String>) -> (out: Vec<Json>)
    ensures
        values(out@) == texts(list@).map_values(|s: Seq<char>| JsonView::Text(s)),
{
    let mut out: Vec<Json> = Vec::new();
    for s in it: list
        invariant
            it.seq() == list@,
            values(out@) =~= texts(list@).take(it.index() as int).map_values(
                |s: Seq<char>| JsonView::Text(s),
            ),
    {
        let ghost was = values(out@);
        let item = Json::Text(s);
        out.push(item);
        assert(values(out@) =~= was.push(item@));
    }
    out
}

fn row_items(rows: Vec<Vec<Json>>) -> (out: Vec<Json>)
    ensures
        values(out@) == row_views(rows@).map_values(|row: Seq<JsonView>| JsonView::Array(row)),
{
    let mut out: Vec<Json> = Vec::new();
    for row in it: rows
        invariant
            it.seq() == rows@,
            values(out@) =~= row_views(rows@).take(it.index() as int).map_values(
                |row: Seq<JsonView>| JsonView::Array(row),
            ),
    {
        broadcast use lemma_array_view;

        let ghost was = values(out@);
        let item = Json::Array(row);
        out.push(item);
        assert(values(out@) =~= was.push(item@));
    }
    out
}

/// Answers a query, by what came of it.
pub fn answer_query(
    connection: &SpannerConnection,
    id: &str,
    outcome: Result<QueryOutput, String>,
) -> (out: Reply)
    ensures
        out@ == query_answer(connection@.config, id@, output_result(outcome)),
{
    broadcast use lemma_array_view;

    match outcome {
        Ok((columns, rows, truncated)) => {
            let ghost wanted = query_answer(connection@.config, id@, output_result(outcome));
            let mut fields: Vec<(String, Json)> = Vec::new();
            fields.push(member("connectionId", text(id)));
            fields.push(member("columns", Json::Array(text_items(columns))));
            fields.push(member("rows", Json::Array(row_items(rows))));
            fields.push(member("truncated", Json::Bool(truncated)));
            assert(members(fields@) =~= wanted->Fields_0);
            Reply::Fields(fields)
        },
        Err(message) => {
            let shown = connection.config.redact(message.as_str());
            error("connector.queryFailed", shown.as_str())
        },
    }
}

/// What is answered to a request for the description of a database.
pub open spec fn metadata_answer(
    config: SpannerConfigView,
    id: Seq<char>,
    outcome: Result<JsonView, Seq<char>>,
) -> ReplyView {
    match outcome {
        Ok(metadata) => ReplyView::Fields(
            seq![("connectionId"@, JsonView::Text(id)), ("metadata"@, metadata)],
        ),
        Err(message) => failure("connector.metadataFailed"@, config, message),
    }
}

/// Answers a request for the description of a database, by what came of it.
pub fn answer_metadata(
    connection: &SpannerConnection,
    id: &str,
    outcome: Result<Json, String>,
) -> (out: Reply)
    ensures
        out@ == metadata_answer(connection@.config, id@, json_result(outcome)),
{
    match outcome {
        Ok(metadata) => {
            let ghost wanted = metadata_answer(connection@.config, id@, json_result(outcome));
            let mut fields: Vec<(String, Json)> = Vec::new();
            fields.push(member("connectionId", text(id)));
            fields.push(member("metadata", metadata));
            assert(members(fields@) =~= wanted->Fields_0);
            Reply::Fields(fields)
        },
        Err(message) => {
            let shown = connection.config.redact(message.as_str());
            error("connector.metadataFailed", shown.as_str())
        },
    }
}

/// What is answered where a connection was to be closed.
pub open spec fn closed_fields(id: Seq<char>, was_open: bool) -> Seq<(Seq<char>, JsonView)> {
    seq![("connectionId"@, JsonView::Text(id)), ("closed"@, JsonView::Bool(was_open))]
}

/// The view of a request that there may be none of.
pub open spec fn request_view(request: Option<HttpRequest>) -> Option<HttpRequestView> {
    match request {
        Some(request) => Some(request@),
        None => None,
    }
}

/// Forgets a connection and says whether it was open; if it was, its session is to be deleted,
/// whatever comes of that.
pub fn close(connections: &mut Connections, id: &str) -> (out: (Option<HttpRequest>, Reply))
    requires
        old(connections).wf(),
    ensures
        final(connections).wf(),
        final(connections)@ == old(connections)@.remove(id@),
        request_view(out.0) == match found(old(connections)@, id@) {
            Ok(connection) => Some(delete_session_request_of(connection)),
            Err(_) => None,
        },
        out.1@ == ReplyView::Fields(closed_fields(id@, old(connections)@.contains_key(id@))),
{
    let closed = connections.remove(id);
    let mut fields: Vec<(String, Json)> = Vec::new();
    fields.push(member("connectionId", text(id)));
    fields.push(member("closed", Json::Bool(closed.is_some())));
    assert(members(fields@) =~= closed_fields(id@, closed is Some));
    let request = match closed {
        Some(connection) => Some(delete_session(&connection)),
        None => None,
    };
    (request, Reply::Fields(fields))
}

/// A connection that was opened is the one that is found under its name until it is closed or
/// replaced, and opening it leaves the others as they are.
pub proof fn opened_connections_are_found(
    connections: Map<Seq<char>, SpannerConnectionView>,
    id: Seq<char>,
    connection: SpannerConnectionView,
    other: Seq<char>,
)
    ensures
        found(connections.insert(id, connection), id) == Ok::<SpannerConnectionView, ReplyView>(
            connection,
        ),
        other != id ==> found(connections.insert(id, connection), other) == found(
            connections,
            other,
        ),
{
}

/// A connection that was closed is found no longer, closing it again says that it was not open,
/// and closing it leaves the others as they are.
pub proof fn closed_connections_are_gone(
    connections: Map<Seq<char>, SpannerConnectionView>,
    id: Seq<char>,
    other: Seq<char>,
)
    ensures
        found(connections.remove(id), id) is Err,
        other != id ==> found(connections.remove(id), other) == found(connections, other),
        closed_fields(id, connections.remove(id).contains_key(id)) == closed_fields(id, false),
{
}

/// Closing a connection undoes opening it, where there was none of that name.
pub proof fn closing_undoes_opening(
    connections: Map<Seq<char>, SpannerConnectionView>,
    id: Seq<char>,
    connection: SpannerConnectionView,
)
    requires
        !connections.contains_key(id),
    ensures
        connections.insert(id, connection).remove(id) == connections,
        connections.insert(id, connection).contains_key(id),
{
    assert(connections.insert(id, connection).remove(id) =~= connections);
}

/// Whatever is sent on behalf of a call goes out under the token of the connection that the call
/// names, and to the session of that connection.
pub proof fn requests_belong_to_their_connection(
    connections: Map<Seq<char>, SpannerConnectionView>,
    id: Seq<char>,
    sql: Seq<char>,
)
    ensures
        asked(connections, id, sql) is Ok <==> connections.contains_key(id),
        asked(connections, id, sql) matches Ok((connection, request)) ==> {
            &&& connection == connections[id]
            &&& request.bearer == Some(connections[id].config.access_token)
            &&& request.url == "https://spanner.googleapis.com/v1/"@ + (connections[id].session
                + ":executeSql"@)
            &&& delete_session_request_of(connection).bearer == request.bearer
        },
{
}

/// No failure that is answered on an open connection shows its access token, if the token stands
/// out from the mask: neither that of a query, nor that of a description, nor that of opening the
/// session.
pub proof fn failures_hide_the_token(
    request: JsonView,
    key: Option<ServiceAccountKeyView>,
    access_token: Seq<char>,
    id: Seq<char>,
    message: Seq<char>,
)
    requires
        config_of(request, key, access_token) is Ok,
        stands_out(trimmed(access_token), mask()),
    ensures
        ({
            let config = config_of(request, key, access_token)->Ok_0;
            &&& !shows(query_answer(config, id, Err(message)), access_token)
            &&& !shows(metadata_answer(config, id, Err(message)), access_token)
            &&& with_session(config, Err(message)) matches StepView::Refused(reply) && !shows(
                reply,
                access_token,
            )
        }),
{
    access_token_is_redacted(request, key, access_token, message);
}

/// Whether the message of a failure holds a text.
pub open spec fn shows(reply: ReplyView, text: Seq<char>) -> bool {
    reply matches ReplyView::Error(_, message) && occurs(message, text)
}

} // verus!
