//! How a connection is made, one action after the other.

use vstd::prelude::*;
use crate::config::ServiceAccountKey;
use crate::config::ServiceAccountKeyView;
use crate::config::SpannerConfig;
use crate::config::SpannerConfigView;
use crate::config::config_of;
use crate::config::explicit_token;
use crate::config::explicit_token_of;
use crate::config::impersonation_delegates;
use crate::config::impersonation_delegates_of;
use crate::config::impersonation_target;
use crate::config::impersonation_target_of;
use crate::config::key_view;
use crate::config::service_json;
use crate::config::service_json_of;
use crate::credentials::AdcKind;
use crate::credentials::AdcKindView;
use crate::credentials::adc_kind;
use crate::credentials::adc_kind_of;
use crate::credentials::adc_paths_from;
use crate::credentials::adc_search;
use crate::credentials::assertion_grant_body;
use crate::credentials::assertion_grant_outcome;
use crate::credentials::assertion_grant_request;
use crate::credentials::cloud_scope;
use crate::credentials::fetch_metadata_token;
use crate::credentials::fetch_oauth2_token;
use crate::credentials::fetch_refresh_token_grant;
use crate::credentials::impersonate_service_account;
use crate::credentials::impersonation_outcome;
use crate::credentials::impersonation_request;
use crate::credentials::impersonation_request_of;
use crate::credentials::metadata_request_of;
use crate::credentials::metadata_token_outcome;
use crate::credentials::metadata_token_request;
use crate::credentials::refresh_grant_body;
use crate::credentials::refresh_grant_outcome;
use crate::credentials::refresh_grant_request;
use crate::credentials::token_request_of;
use crate::http::HttpReply;
use crate::http::HttpReplyView;
use crate::http::HttpRequest;
use crate::http::HttpRequestView;
use crate::http::request_json_outcome;
use crate::json::Json;
use crate::json::JsonView;
use crate::json::json_document;
use crate::json::json_result;
use crate::json::parse_json;
use crate::jwt::LIFETIME;
use crate::jwt::LONGEST_EMAIL;
use crate::jwt::create_jwt_assertion;
use crate::jwt::jwt_assertion;
use crate::redaction::redacted;
use crate::reply::Reply;
use crate::reply::ReplyView;
use crate::reply::error;
use crate::session::SpannerConnection;
use crate::session::SpannerConnectionView;
use crate::session::create_session;
use crate::session::create_session_request;
use crate::session::create_session_request_of;
use crate::session::session_name;
use crate::text::cat2;
use crate::text::cat3;
use crate::text::join;
use crate::text::joined;
use crate::text::owned_text;
use crate::text::text_result;
use crate::text::texts;

verus! {

broadcast use vstd::string::group_string_axioms;

/// The variables of the environment that bear on where credentials come from.
pub struct Environment {
    /// `GOOGLE_OAUTH_ACCESS_TOKEN`
    pub oauth_access_token: Option<String>,
    /// `GOOGLE_APPLICATION_CREDENTIALS`
    pub application_credentials: Option<String>,
    /// `CLOUDSDK_CONFIG`
    pub cloudsdk_config: Option<String>,
    /// `HOME`
    pub home: Option<String>,
    /// `GCE_METADATA_HOST`
    pub metadata_host: Option<String>,
}

/// The mathematical form of the variables of the environment.
pub struct EnvironmentView {
    pub oauth_access_token: Option<Seq<char>>,
    pub application_credentials: Option<Seq<char>>,
    pub cloudsdk_config: Option<Seq<char>>,
    pub home: Option<Seq<char>>,
    pub metadata_host: Option<Seq<char>>,
}

impl View for Environment {
    type V = EnvironmentView;

    open spec fn view(&self) -> EnvironmentView {
        EnvironmentView {
            oauth_access_token: owned_text(self.oauth_access_token),
            application_credentials: owned_text(self.application_credentials),
            cloudsdk_config: owned_text(self.cloudsdk_config),
            home: owned_text(self.home),
            metadata_host: owned_text(self.metadata_host),
        }
    }
}

/// What is to be done next on the way to a connection.
#[derive(Debug, PartialEq, Eq)]
pub enum Action {
    /// Read the key of a service account from a JSON text.
    ReadKey(String),
    /// Read the key of a service account from a JSON text that is known to be JSON.
    ReadKeyDocument(String),
    /// Read the time, in seconds since 1970.
    ReadClock,
    /// Read a file as a text.
    ReadFile(String),
    /// Send a request.
    Send(HttpRequest),
}

/// The mathematical form of what is to be done next.
pub enum ActionView {
    ReadKey(Seq<char>),
    ReadKeyDocument(Seq<char>),
    ReadClock,
    ReadFile(Seq<char>),
    Send(HttpRequestView),
}

impl View for Action {
    type V = ActionView;

    open spec fn view(&self) -> ActionView {
        match self {
            Action::ReadKey(text) => ActionView::ReadKey(text@),
            Action::ReadKeyDocument(text) => ActionView::ReadKeyDocument(text@),
            Action::ReadClock => ActionView::ReadClock,
            Action::ReadFile(path) => ActionView::ReadFile(path@),
            Action::Send(request) => ActionView::Send(request@),
        }
    }
}

/// What came of an action.
pub enum Event {
    /// The key, or why there is none.
    Key(Result<ServiceAccountKey, String>),
    /// The time, in seconds since 1970.
    Clock(u64),
    /// The text of the file, if it could be read.
    File(Option<String>),
    /// What became of the request.
    Replied(HttpReply),
}

/// The mathematical form of what came of an action.
pub enum EventView {
    Key(Result<ServiceAccountKeyView, Seq<char>>),
    Clock(u64),
    File(Option<Seq<char>>),
    Replied(HttpReplyView),
}

impl View for Event {
    type V = EventView;

    open spec fn view(&self) -> EventView {
        match self {
            Event::Key(out) => EventView::Key(
                match out {
                    Ok(key) => Ok(key@),
                    Err(message) => Err(message@),
                },
            ),
            Event::Clock(now) => EventView::Clock(*now),
            Event::File(text) => EventView::File(owned_text(*text)),
            Event::Replied(reply) => EventView::Replied(reply@),
        }
    }
}

/// What is being waited for on the way to a connection.
pub enum Stage {
    /// The key in the request.
    RequestKey,
    /// A credential file, with the paths to try behind it and those that were tried before it.
    File(String, Vec<String>, Vec<String>),
    /// The key in a credential file, whose path is kept.
    FileKey(String),
    /// The time, to make the assertion of a service account with its private key.
    Clock(String, String),
    /// The reply to an assertion.
    Assertion,
    /// The reply to a refresh grant.
    Refresh,
    /// The reply of the metadata server, with the paths that were tried before.
    Metadata(Vec<String>),
    /// The reply to the request for a token of another service account.
    Impersonation(String),
    /// The reply to the request for a session.
    Session(SpannerConfig),
}

/// The mathematical form of what is being waited for.
pub enum StageView {
    RequestKey,
    File(Seq<char>, Seq<Seq<char>>, Seq<Seq<char>>),
    FileKey(Seq<char>),
    Clock(Seq<char>, Seq<char>),
    Assertion,
    Refresh,
    Metadata(Seq<Seq<char>>),
    Impersonation(Seq<char>),
    Session(SpannerConfigView),
}

impl View for Stage {
    type V = StageView;

    open spec fn view(&self) -> StageView {
        match self {
            Stage::RequestKey => StageView::RequestKey,
            Stage::File(path, rest, tried) => StageView::File(path@, texts(rest@), texts(tried@)),
            Stage::FileKey(path) => StageView::FileKey(path@),
            Stage::Clock(email, private_key) => StageView::Clock(email@, private_key@),
            Stage::Assertion => StageView::Assertion,
            Stage::Refresh => StageView::Refresh,
            Stage::Metadata(tried) => StageView::Metadata(texts(tried@)),
            Stage::Impersonation(target) => StageView::Impersonation(target@),
            Stage::Session(config) => StageView::Session(config@),
        }
    }
}

/// What a connection is being made from: the request, the environment, and the key in the request
/// once it has been read.
pub struct Wanted {
    pub request: Json,
    pub environment: Environment,
    pub key: Option<ServiceAccountKey>,
}

/// The mathematical form of what a connection is being made from.
pub struct WantedView {
    pub request: JsonView,
    pub environment: EnvironmentView,
    pub key: Option<ServiceAccountKeyView>,
}

impl View for Wanted {
    type V = WantedView;

    open spec fn view(&self) -> WantedView {
        WantedView {
            request: self.request@,
            environment: self.environment@,
            key: key_view(self.key),
        }
    }
}

/// Where the making of a connection stands.
pub enum Step {
    /// The action is to be performed, and what came of it handed in.
    Perform(Wanted, Stage, Action),
    /// The connection is open.
    Connected(SpannerConnection),
    /// There is no connection, and this is the answer.
    Refused(Reply),
}

/// The mathematical form of where the making of a connection stands.
pub enum StepView {
    Perform(WantedView, StageView, ActionView),
    Connected(SpannerConnectionView),
    Refused(ReplyView),
}

impl View for Step {
    type V = StepView;

    open spec fn view(&self) -> StepView {
        match self {
            Step::Perform(wanted, stage, action) => StepView::Perform(wanted@, stage@, action@),
            Step::Connected(connection) => StepView::Connected(connection@),
            Step::Refused(reply) => StepView::Refused(reply@),
        }
    }
}

/// What is answered where a request cannot be turned into a configuration.
pub open spec fn refusal(message: Seq<char>) -> StepView {
    StepView::Refused(ReplyView::Error("connector.invalidRequest"@, message))
}

/// Goes on with a token that is good for the database: to the session, if the settings are there.
pub open spec fn with_access(wanted: WantedView, token: Seq<char>) -> StepView {
    match config_of(wanted.request, wanted.key, token) {
        Ok(config) => StepView::Perform(
            wanted,
            StageView::Session(config),
            ActionView::Send(create_session_request_of(config)),
        ),
        Err(message) => refusal(message),
    }
}

/// Goes on with a token of the caller: to that of the service account to act as, if there is one.
pub open spec fn with_token(wanted: WantedView, token: Seq<char>) -> StepView {
    match impersonation_target_of(wanted.request) {
        Some(target) => StepView::Perform(
            wanted,
            StageView::Impersonation(target),
            ActionView::Send(
                impersonation_request_of(
                    token,
                    target,
                    cloud_scope(),
                    impersonation_delegates_of(wanted.request),
                ),
            ),
        ),
        None => with_access(wanted, token),
    }
}

/// Goes on with the outcome of a request for a token.
pub open spec fn with_outcome(wanted: WantedView, token: Result<Seq<char>, Seq<char>>) -> StepView {
    match token {
        Ok(token) => with_token(wanted, token),
        Err(message) => refusal(message),
    }
}

/// Goes on with the key of a service account: to the time.
pub open spec fn with_key(wanted: WantedView, key: ServiceAccountKeyView) -> StepView {
    StepView::Perform(
        wanted,
        StageView::Clock(key.client_email, key.private_key),
        ActionView::ReadClock,
    )
}

/// Goes on with the search for credentials: to the next file, or else to the metadata server.
pub open spec fn seeking(
    wanted: WantedView,
    paths: Seq<Seq<char>>,
    tried: Seq<Seq<char>>,
) -> StepView {
    if paths.len() > 0 {
        StepView::Perform(
            wanted,
            StageView::File(paths[0], paths.drop_first(), tried),
            ActionView::ReadFile(paths[0]),
        )
    } else {
        StepView::Perform(
            wanted,
            StageView::Metadata(tried),
            ActionView::Send(
                metadata_request_of(wanted.environment.metadata_host, cloud_scope()),
            ),
        )
    }
}

/// What `Debug` of a text prints: the text in quotes, with escapes.
pub uninterp spec fn debug_text(s: Seq<char>) -> Seq<char>;

/// `format!` with `{:?}` of a text: the text in quotes, with those characters escaped that std
/// escapes; which they are is std's to say.
#[verifier::external_body]
fn quote(s: &str) -> (out: String)
    ensures
        out@ == debug_text(s@),
{
    format!("{s:?}")
}

/// What is said of a workload identity.
pub open spec fn external_account_message(path: Seq<char>) -> Seq<char> {
    "the credential file at "@ + path
        + " is a workload identity (external_account) credential, which this connector does not support yet. Use a service account key or `gcloud auth application-default login`."@
}

/// What is said of a credential file without a field that it must have.
pub open spec fn missing_field_message(path: Seq<char>, name: Seq<char>) -> Seq<char> {
    "credential file at "@ + path + " is missing "@ + name + "."@
}

/// Goes on with a credential file, by its kind.
pub open spec fn with_document(
    wanted: WantedView,
    path: Seq<char>,
    text: Seq<char>,
    document: Result<JsonView, Seq<char>>,
) -> StepView {
    match document {
        Err(message) => refusal(
            "credential file at "@ + path + " is not valid JSON: "@ + message,
        ),
        Ok(value) => match adc_kind_of(value) {
            AdcKindView::ServiceAccount => StepView::Perform(
                wanted,
                StageView::FileKey(path),
                ActionView::ReadKeyDocument(text),
            ),
            AdcKindView::AuthorizedUser => match value.text_field("client_id"@) {
                None => refusal(missing_field_message(path, "client_id"@)),
                Some(id) => match value.text_field("client_secret"@) {
                    None => refusal(missing_field_message(path, "client_secret"@)),
                    Some(secret) => match value.text_field("refresh_token"@) {
                        None => refusal(missing_field_message(path, "refresh_token"@)),
                        Some(token) => StepView::Perform(
                            wanted,
                            StageView::Refresh,
                            ActionView::Send(
                                token_request_of(refresh_grant_body(id, secret, token)),
                            ),
                        ),
                    },
                },
            },
            AdcKindView::ExternalAccount => refusal(external_account_message(path)),
            AdcKindView::Unknown(kind) => refusal(
                "the credential file at "@ + path + " has an unrecognised credential type "@
                    + debug_text(kind) + "."@,
            ),
        },
    }
}

/// What is said where the metadata server was of no help either: where files were looked for is
/// said too.
pub open spec fn search_message(message: Seq<char>, tried: Seq<Seq<char>>) -> Seq<char> {
    if tried.len() == 0 {
        message
    } else {
        message + " (no credential file at: "@ + joined(tried, ", "@) + ")"@
    }
}

/// The outcome of the request to the metadata server, at the end of the search for credentials.
pub open spec fn search_outcome(reply: HttpReplyView, tried: Seq<Seq<char>>) -> Result<
    Seq<char>,
    Seq<char>,
> {
    match metadata_token_outcome(reply) {
        Ok(token) => Ok(token),
        Err(message) => Err(search_message(message, tried)),
    }
}

/// How the making of a connection begins: with the key in the request, or else with the token in
/// it or in the environment, or else with the search for credentials.
pub open spec fn beginning(request: JsonView, environment: EnvironmentView) -> StepView {
    let wanted = WantedView { request, environment, key: None };
    match service_json_of(request) {
        Some(text) => StepView::Perform(wanted, StageView::RequestKey, ActionView::ReadKey(text)),
        None => match explicit_token_of(request, environment.oauth_access_token) {
            Some(token) => with_token(wanted, token),
            None => seeking(
                wanted,
                adc_search(
                    environment.application_credentials,
                    environment.cloudsdk_config,
                    environment.home,
                ),
                Seq::empty(),
            ),
        },
    }
}

/// The outcome of the request for a session.
pub open spec fn with_session(config: SpannerConfigView, name: Result<Seq<char>, Seq<char>>) -> StepView {
    match name {
        Ok(session) => StepView::Connected(SpannerConnectionView { config, session }),
        Err(message) => StepView::Refused(
            ReplyView::Error(
                "connector.connectFailed"@,
                redacted(message, config.redaction_values),
            ),
        ),
    }
}

/// Whether an event is one that the stage waits for. A time must leave room for the lifetime of an
/// assertion, and the name of the service account must be short enough for one.
pub open spec fn fits(stage: StageView, event: EventView) -> bool {
    match (stage, event) {
        (StageView::RequestKey, EventView::Key(_)) => true,
        (StageView::File(..), EventView::File(_)) => true,
        (StageView::FileKey(_), EventView::Key(_)) => true,
        (StageView::Clock(email, _), EventView::Clock(now)) => {
            &&& now + LIFETIME <= u64::MAX
            &&& email.len() <= LONGEST_EMAIL
        },
        (StageView::Assertion, EventView::Replied(_)) => true,
        (StageView::Refresh, EventView::Replied(_)) => true,
        (StageView::Metadata(_), EventView::Replied(_)) => true,
        (StageView::Impersonation(_), EventView::Replied(_)) => true,
        (StageView::Session(_), EventView::Replied(_)) => true,
        _ => false,
    }
}

/// How the making of a connection goes on after an event.
pub open spec fn continuation(wanted: WantedView, stage: StageView, event: EventView) -> StepView
    recommends
        fits(stage, event),
{
    match (stage, event) {
        (StageView::RequestKey, EventView::Key(Ok(key))) => with_key(
            WantedView { key: Some(key), ..wanted },
            key,
        ),
        (StageView::RequestKey, EventView::Key(Err(message))) => refusal(
            "invalid Google service account JSON: "@ + message,
        ),
        (StageView::File(path, rest, tried), EventView::File(None)) => seeking(
            wanted,
            rest,
            tried.push(path),
        ),
        (StageView::File(path, _, _), EventView::File(Some(text))) => with_document(
            wanted,
            path,
            text,
            json_document(text),
        ),
        (StageView::FileKey(_), EventView::Key(Ok(key))) => with_key(wanted, key),
        (StageView::FileKey(path), EventView::Key(Err(message))) => refusal(
            "service account file at "@ + path + " is missing fields: "@ + message,
        ),
        (StageView::Clock(email, private_key), EventView::Clock(now)) => match jwt_assertion(
            email,
            private_key,
            now as nat,
        ) {
            Ok(assertion) => StepView::Perform(
                wanted,
                StageView::Assertion,
                ActionView::Send(token_request_of(assertion_grant_body(assertion))),
            ),
            Err(message) => refusal(message),
        },
        (StageView::Assertion, EventView::Replied(reply)) => with_outcome(
            wanted,
            assertion_grant_outcome(reply),
        ),
        (StageView::Refresh, EventView::Replied(reply)) => with_outcome(
            wanted,
            refresh_grant_outcome(reply),
        ),
        (StageView::Metadata(tried), EventView::Replied(reply)) => with_outcome(
            wanted,
            search_outcome(reply, tried),
        ),
        (StageView::Impersonation(target), EventView::Replied(reply)) => match impersonation_outcome(
            target,
            reply,
        ) {
            Ok(token) => with_access(wanted, token),
            Err(message) => refusal(message),
        },
        (StageView::Session(config), EventView::Replied(reply)) => with_session(
            config,
            session_name(request_json_outcome(reply)),
        ),
        _ => arbitrary(),
    }
}

/// What is answered where a request cannot be turned into a configuration.
pub fn refuse(message: &str) -> (out: Step)
    ensures
        out@ == refusal(message@),
{
    Step::Refused(error("connector.invalidRequest", message))
}

fn take_access(wanted: Wanted, token: String) -> (out: Step)
    ensures
        out@ == with_access(wanted@, token@),
{
    match SpannerConfig::from_request(&wanted.request, &wanted.key, token) {
        Ok(config) => {
            let request = create_session_request(&config);
            Step::Perform(wanted, Stage::Session(config), Action::Send(request))
        },
        Err(message) => refuse(message.as_str()),
    }
}

fn take_token(wanted: Wanted, token: String) -> (out: Step)
    ensures
        out@ == with_token(wanted@, token@),
{
    match impersonation_target(&wanted.request) {
        Some(target) => {
            let delegates = impersonation_delegates(&wanted.request);
            let request = impersonation_request(
                token.as_str(),
                target.as_str(),
                "https://www.googleapis.com/auth/cloud-platform",
                &delegates,
            );
            Step::Perform(wanted, Stage::Impersonation(target), Action::Send(request))
        },
        None => take_access(wanted, token),
    }
}

fn take_outcome(wanted: Wanted, token: Result<String, String>) -> (out: Step)
    ensures
        out@ == with_outcome(wanted@, text_result(token)),
{
    match token {
        Ok(token) => take_token(wanted, token),
        Err(message) => refuse(message.as_str()),
    }
}

fn take_key(wanted: Wanted, email: String, private_key: String) -> (out: Step)
    ensures
        out@ == StepView::Perform(
            wanted@,
            StageView::Clock(email@, private_key@),
            ActionView::ReadClock,
        ),
{
    Step::Perform(wanted, Stage::Clock(email, private_key), Action::ReadClock)
}

fn seek(wanted: Wanted, paths: Vec<String>, tried: Vec<String>) -> (out: Step)
    ensures
        out@ == seeking(wanted@, texts(paths@), texts(tried@)),
{
    let mut rest = paths;
    if rest.len() > 0 {
        let path = rest.remove(0);
        assert(texts(rest@) =~= texts(paths@).drop_first());
        assert(path@ == texts(paths@)[0]);
        let action = Action::ReadFile(path.clone());
        Step::Perform(wanted, Stage::File(path, rest, tried), action)
    } else {
        let host = match &wanted.environment.metadata_host {
            Some(host) => Some(host.as_str()),
            None => None,
        };
        let request = metadata_token_request(
            host,
            "https://www.googleapis.com/auth/cloud-platform",
        );
        Step::Perform(wanted, Stage::Metadata(tried), Action::Send(request))
    }
}

fn refuse_missing(path: &str, name: &str) -> (out: Step)
    ensures
        out@ == refusal(missing_field_message(path@, name@)),
{
    let mut message = cat3("credential file at ", path, " is missing ");
    message.push_str(name);
    message.push_str(".");
    refuse(message.as_str())
}

/// Goes on with a credential file, by its kind. `document` is what its text was read as.
pub fn open_credentials(
    wanted: Wanted,
    path: String,
    text: String,
    document: Result<Json, String>,
) -> (out: Step)
    ensures
        out@ == with_document(wanted@, path@, text@, json_result(document)),
{
    let value = match document {
        Ok(value) => value,
        Err(message) => {
            let mut all = cat3("credential file at ", path.as_str(), " is not valid JSON: ");
            all.push_str(message.as_str());
            return refuse(all.as_str());
        },
    };
    match adc_kind(&value) {
        AdcKind::ServiceAccount => Step::Perform(
            wanted,
            Stage::FileKey(path),
            Action::ReadKeyDocument(text),
        ),
        AdcKind::AuthorizedUser => {
            let id = match value.text_field("client_id") {
                Some(id) => id,
                None => return refuse_missing(path.as_str(), "client_id"),
            };
            let secret = match value.text_field("client_secret") {
                Some(secret) => secret,
                None => return refuse_missing(path.as_str(), "client_secret"),
            };
            let token = match value.text_field("refresh_token") {
                Some(token) => token,
                None => return refuse_missing(path.as_str(), "refresh_token"),
            };
            let request = refresh_grant_request(id.as_str(), secret.as_str(), token.as_str());
            Step::Perform(wanted, Stage::Refresh, Action::Send(request))
        },
        AdcKind::ExternalAccount => {
            let message = cat3(
                "the credential file at ",
                path.as_str(),
                " is a workload identity (external_account) credential, which this connector does not support yet. Use a service account key or `gcloud auth application-default login`.",
            );
            refuse(message.as_str())
        },
        AdcKind::Unknown(kind) => {
            let mut message = cat3(
                "the credential file at ",
                path.as_str(),
                " has an unrecognised credential type ",
            );
            message.push_str(quote(kind.as_str()).as_str());
            message.push_str(".");
            refuse(message.as_str())
        },
    }
}

fn end_search(reply: HttpReply, tried: Vec<String>) -> (out: Result<String, String>)
    ensures
        text_result(out) == search_outcome(reply@, texts(tried@)),
{
    match fetch_metadata_token(reply) {
        Ok(token) => Ok(token),
        Err(message) => {
            if tried.len() == 0 {
                Err(message)
            } else {
                let mut all = cat2(message.as_str(), " (no credential file at: ");
                all.push_str(join(&tried, ", ").as_str());
                all.push_str(")");
                Err(all)
            }
        },
    }
}

fn borrow_text(s: &Option<String>) -> (out: Option<&str>)
    ensures
        crate::text::borrowed_text(out) == owned_text(*s),
{
    match s {
        Some(s) => Some(s.as_str()),
        None => None,
    }
}

/// Begins to make a connection.
pub fn begin(request: Json, environment: Environment) -> (out: Step)
    ensures
        out@ == beginning(request@, environment@),
{
    let found = service_json(&request);
    let wanted = Wanted { request, environment, key: None };
    match found {
        Some(text) => Step::Perform(wanted, Stage::RequestKey, Action::ReadKey(text)),
        None => {
            let from_environment = wanted.environment.oauth_access_token.clone();
            match explicit_token(&wanted.request, from_environment) {
                Some(token) => take_token(wanted, token),
                None => {
                    let paths = adc_paths_from(
                        borrow_text(&wanted.environment.application_credentials),
                        borrow_text(&wanted.environment.cloudsdk_config),
                        borrow_text(&wanted.environment.home),
                    );
                    let tried: Vec<String> = Vec::new();
                    assert(texts(tried@) =~= Seq::<Seq<char>>::empty());
                    seek(wanted, paths, tried)
                },
            }
        },
    }
}

/// The outcome of the request for a session.
pub fn open_session(config: SpannerConfig, name: Result<String, String>) -> (out: Step)
    ensures
        out@ == with_session(config@, text_result(name)),
{
    match name {
        Ok(session) => Step::Connected(SpannerConnection { config, session }),
        Err(message) => {
            let shown = config.redact(message.as_str());
            Step::Refused(error("connector.connectFailed", shown.as_str()))
        },
    }
}

/// Goes on with making a connection, after an event that the stage waits for.
pub fn advance(wanted: Wanted, stage: Stage, event: Event) -> (out: Step)
    requires
        fits(stage@, event@),
    ensures
        out@ == continuation(wanted@, stage@, event@),
{
    match (stage, event) {
        (Stage::RequestKey, Event::Key(Ok(key))) => {
            let email = key.client_email.clone();
            let private_key = key.private_key.clone();
            let known = Wanted {
                request: wanted.request,
                environment: wanted.environment,
                key: Some(key),
            };
            take_key(known, email, private_key)
        },
        (Stage::RequestKey, Event::Key(Err(message))) => refuse(
            cat2("invalid Google service account JSON: ", message.as_str()).as_str(),
        ),
        (Stage::File(path, rest, tried), Event::File(None)) => {
            let mut longer = tried;
            longer.push(path);
            assert(texts(longer@) =~= texts(tried@).push(path@));
            seek(wanted, rest, longer)
        },
        (Stage::File(path, _, _), Event::File(Some(text))) => {
            let document = parse_json(text.as_str());
            open_credentials(wanted, path, text, document)
        },
        (Stage::FileKey(_), Event::Key(Ok(key))) => take_key(
            wanted,
            key.client_email,
            key.private_key,
        ),
        (Stage::FileKey(path), Event::Key(Err(message))) => {
            let mut all = cat3("service account file at ", path.as_str(), " is missing fields: ");
            all.push_str(message.as_str());
            refuse(all.as_str())
        },
        (Stage::Clock(email, private_key), Event::Clock(now)) => {
            match create_jwt_assertion(email.as_str(), private_key.as_str(), now) {
                Ok(assertion) => {
                    let request = assertion_grant_request(assertion.as_str());
                    Step::Perform(wanted, Stage::Assertion, Action::Send(request))
                },
                Err(message) => refuse(message.as_str()),
            }
        },
        (Stage::Assertion, Event::Replied(reply)) => take_outcome(
            wanted,
            fetch_oauth2_token(reply),
        ),
        (Stage::Refresh, Event::Replied(reply)) => take_outcome(
            wanted,
            fetch_refresh_token_grant(reply),
        ),
        (Stage::Metadata(tried), Event::Replied(reply)) => take_outcome(
            wanted,
            end_search(reply, tried),
        ),
        (Stage::Impersonation(target), Event::Replied(reply)) => {
            match impersonate_service_account(target.as_str(), reply) {
                Ok(token) => take_access(wanted, token),
                Err(message) => refuse(message.as_str()),
            }
        },
        (Stage::Session(config), Event::Replied(reply)) => open_session(
            config,
            create_session(reply),
        ),
        _ => vstd::pervasive::unreached(),
    }
}

} // verus!
