//! What making a connection leads to, in terms of what the world holds.

use vstd::prelude::*;
use crate::config::ServiceAccountKeyView;
use crate::config::SpannerConfigView;
use crate::config::config_of;
use crate::config::explicit_token_of;
use crate::config::impersonation_delegates_of;
use crate::config::impersonation_target_of;
use crate::config::key_view;
use crate::config::service_json_of;
use crate::connect::Action;
use crate::connect::ActionView;
use crate::connect::Environment;
use crate::connect::EnvironmentView;
use crate::connect::Event;
use crate::connect::EventView;
use crate::connect::Stage;
use crate::connect::StageView;
use crate::connect::Step;
use crate::connect::StepView;
use crate::connect::Wanted;
use crate::connect::WantedView;
use crate::connect::beginning;
use crate::connect::continuation;
use crate::connect::debug_text;
use crate::connect::fits;
use crate::connect::refusal;
use crate::connect::with_document;
use crate::connect::with_session;
use crate::credentials::adc_search;
use crate::credentials::assertion_grant_body;
use crate::credentials::assertion_grant_outcome;
use crate::credentials::impersonation_outcome;
use crate::credentials::impersonation_request_of;
use crate::credentials::metadata_request_of;
use crate::credentials::metadata_token_outcome;
use crate::credentials::refresh_grant_body;
use crate::credentials::refresh_grant_outcome;
use crate::credentials::token_request_of;
use crate::http::HttpReplyView;
use crate::http::request_json_outcome;
use crate::json::JsonView;
use crate::json::json_document;
use crate::jwt::jwt_assertion;
use crate::laws::credentials::files_are_told_apart_by_their_type;
use crate::redaction::redacted;
use crate::reply::ReplyView;
use crate::session::SpannerConnectionView;
use crate::session::create_session_request_of;
use crate::session::session_name;
use crate::text::joined;
use crate::text::owned_text;
use crate::text::texts;
use crate::world::World;

verus! {

/// What a request to connect comes to in a world.
pub open spec fn outcome(world: World, request: JsonView, environment: EnvironmentView) -> StepView {
    world.run(beginning(request, environment), 7)
}

/// Whether a request is refused as invalid, with that message.
pub open spec fn is_refused(step: StepView, message: Seq<char>) -> bool {
    step == StepView::Refused(ReplyView::Error("connector.invalidRequest"@, message))
}

/// Whether a connection is made with a token for the database, or fails as it must: without the
/// settings the request is invalid; the session is the one that the database names; and where it
/// gives none, the reason is told with the token masked.
pub open spec fn ends_with_access(
    step: StepView,
    world: World,
    request: JsonView,
    key: Option<ServiceAccountKeyView>,
    token: Seq<char>,
) -> bool {
    match config_of(request, key, token) {
        Err(message) => is_refused(step, message),
        Ok(config) => match session_name(
            request_json_outcome((world.send)(create_session_request_of(config))),
        ) {
            Ok(session) => {
                &&& step matches StepView::Connected(connection)
                &&& connection.config == config
                &&& connection.session == session
                &&& connection.config.access_token == token
            },
            Err(message) => step == StepView::Refused(
                ReplyView::Error(
                    "connector.connectFailed"@,
                    redacted(message, config.redaction_values),
                ),
            ),
        },
    }
}

/// Whether a connection is made with a token of the caller, or fails as it must: where no account
/// is to be acted as, the token is good for the database; otherwise the one that this account is
/// given for it, and where it is given none, the reason is told.
pub open spec fn ends_with_own(
    step: StepView,
    world: World,
    request: JsonView,
    key: Option<ServiceAccountKeyView>,
    own: Result<Seq<char>, Seq<char>>,
) -> bool {
    match own {
        Err(message) => is_refused(step, message),
        Ok(token) => match impersonation_target_of(request) {
            None => ends_with_access(step, world, request, key, token),
            Some(target) => match impersonation_outcome(
                target,
                (world.send)(
                    impersonation_request_of(
                        token,
                        target,
                        "https://www.googleapis.com/auth/cloud-platform"@,
                        impersonation_delegates_of(request),
                    ),
                ),
            ) {
                Ok(borrowed) => ends_with_access(step, world, request, key, borrowed),
                Err(message) => is_refused(step, message),
            },
        },
    }
}

/// The token that the key of a service account is exchanged for at the time of the world.
pub open spec fn exchanged(world: World, key: ServiceAccountKeyView) -> Result<
    Seq<char>,
    Seq<char>,
> {
    match jwt_assertion(key.client_email, key.private_key, world.now as nat) {
        Ok(assertion) => assertion_grant_outcome(
            (world.send)(token_request_of(assertion_grant_body(assertion))),
        ),
        Err(message) => Err(message),
    }
}

/// A key in the request comes first: it is read and exchanged for a token, and if that fails, the
/// request fails with the reason, whatever else there is.
pub proof fn a_key_in_the_request_comes_first(
    world: World,
    request: JsonView,
    environment: EnvironmentView,
    text: Seq<char>,
)
    requires
        service_json_of(request) == Some(text),
    ensures
        (world.read_key)(text) matches Ok(key) ==> ends_with_own(
            outcome(world, request, environment),
            world,
            request,
            Some(key),
            exchanged(world, key),
        ),
        (world.read_key)(text) matches Err(message) ==> is_refused(
            outcome(world, request, environment),
            "invalid Google service account JSON: "@ + message,
        ),
{
    world.connecting_is_settled(request, environment, 7);
}

/// Without a key in the request, a token in it or in the environment is taken as it is, and
/// nothing is looked for.
pub proof fn a_token_comes_next(
    world: World,
    request: JsonView,
    environment: EnvironmentView,
    token: Seq<char>,
)
    requires
        service_json_of(request) is None,
        explicit_token_of(request, environment.oauth_access_token) == Some(token),
    ensures
        ends_with_own(
            outcome(world, request, environment),
            world,
            request,
            None,
            Ok(token),
        ),
{
    world.connecting_is_settled(request, environment, 7);
}

/// Whether nothing was supplied, so that credentials are looked for.
pub open spec fn nothing_supplied(request: JsonView, environment: EnvironmentView) -> bool {
    &&& service_json_of(request) is None
    &&& explicit_token_of(request, environment.oauth_access_token) is None
}

/// The files in which credentials are looked for.
pub open spec fn candidates(environment: EnvironmentView) -> Seq<Seq<char>> {
    adc_search(
        environment.application_credentials,
        environment.cloudsdk_config,
        environment.home,
    )
}

/// Whether the `k`-th file is the first that can be read, and holds that text.
pub open spec fn is_first_readable(
    world: World,
    environment: EnvironmentView,
    k: int,
    text: Seq<char>,
) -> bool {
    &&& 0 <= k < candidates(environment).len()
    &&& (world.read_file)(candidates(environment)[k]) == Some(text)
    &&& forall|i: int|
        0 <= i < k ==> (world.read_file)(#[trigger] candidates(environment)[i]) is None
}

proof fn lemma_file(
    world: World,
    request: JsonView,
    environment: EnvironmentView,
    k: int,
    text: Seq<char>,
)
    requires
        nothing_supplied(request, environment),
        is_first_readable(world, environment, k, text),
    ensures
        ends_with_own(
            outcome(world, request, environment),
            world,
            request,
            None,
            world.file_token(candidates(environment)[k], text),
        ),
{
    world.connecting_is_settled(request, environment, 7);
    world.first_readable_file_decides(environment, candidates(environment), Seq::empty(), k);
}

/// A credential file that is no JSON is refused by its path, with the reason.
pub proof fn a_file_must_be_json(
    world: World,
    request: JsonView,
    environment: EnvironmentView,
    k: int,
    text: Seq<char>,
    message: Seq<char>,
)
    requires
        nothing_supplied(request, environment),
        is_first_readable(world, environment, k, text),
        json_document(text) == Err::<JsonView, Seq<char>>(message),
    ensures
        is_refused(
            outcome(world, request, environment),
            "credential file at "@ + candidates(environment)[k] + " is not valid JSON: "@ + message,
        ),
{
    lemma_file(world, request, environment, k, text);
}

/// A file of a service account is read as its key and exchanged for a token.
pub proof fn a_file_of_a_service_account_is_exchanged(
    world: World,
    request: JsonView,
    environment: EnvironmentView,
    k: int,
    text: Seq<char>,
    document: JsonView,
)
    requires
        nothing_supplied(request, environment),
        is_first_readable(world, environment, k, text),
        json_document(text) == Ok::<JsonView, Seq<char>>(document),
        document.text_field("type"@) == Some("service_account"@),
    ensures
        (world.read_key_document)(text) matches Ok(key) ==> ends_with_own(
            outcome(world, request, environment),
            world,
            request,
            None,
            exchanged(world, key),
        ),
        (world.read_key_document)(text) matches Err(message) ==> is_refused(
            outcome(world, request, environment),
            "service account file at "@ + candidates(environment)[k] + " is missing fields: "@
                + message,
        ),
{
    files_are_told_apart_by_their_type(document, Seq::empty());
    lemma_file(world, request, environment, k, text);
}

/// The login of a user is exchanged for a token, with the three fields as they stand in the file.
pub proof fn the_login_of_a_user_is_exchanged(
    world: World,
    request: JsonView,
    environment: EnvironmentView,
    k: int,
    text: Seq<char>,
    document: JsonView,
    id: Seq<char>,
    secret: Seq<char>,
    token: Seq<char>,
)
    requires
        nothing_supplied(request, environment),
        is_first_readable(world, environment, k, text),
        json_document(text) == Ok::<JsonView, Seq<char>>(document),
        document.text_field("type"@) == Some("authorized_user"@),
        document.text_field("client_id"@) == Some(id),
        document.text_field("client_secret"@) == Some(secret),
        document.text_field("refresh_token"@) == Some(token),
    ensures
        ends_with_own(
            outcome(world, request, environment),
            world,
            request,
            None,
            refresh_grant_outcome(
                (world.send)(token_request_of(refresh_grant_body(id, secret, token))),
            ),
        ),
{
    files_are_told_apart_by_their_type(document, Seq::empty());
    lemma_file(world, request, environment, k, text);
}

/// The login of a user without one of its fields is refused by the path of its file and the name
/// of the first field that is missing.
pub proof fn the_login_of_a_user_is_complete(
    world: World,
    request: JsonView,
    environment: EnvironmentView,
    k: int,
    text: Seq<char>,
    document: JsonView,
)
    requires
        nothing_supplied(request, environment),
        is_first_readable(world, environment, k, text),
        json_document(text) == Ok::<JsonView, Seq<char>>(document),
        document.text_field("type"@) == Some("authorized_user"@),
    ensures
        ({
            let step = outcome(world, request, environment);
            let front = "credential file at "@ + candidates(environment)[k] + " is missing "@;
            let id = document.text_field("client_id"@) is Some;
            let secret = document.text_field("client_secret"@) is Some;
            let token = document.text_field("refresh_token"@) is Some;
            &&& !id ==> is_refused(step, front + "client_id"@ + "."@)
            &&& id && !secret ==> is_refused(step, front + "client_secret"@ + "."@)
            &&& id && secret && !token ==> is_refused(step, front + "refresh_token"@ + "."@)
        }),
{
    files_are_told_apart_by_their_type(document, Seq::empty());
    lemma_file(world, request, environment, k, text);
}

/// A workload identity, and any type that is not known, is refused by the path of its file.
pub proof fn other_files_are_refused(
    world: World,
    request: JsonView,
    environment: EnvironmentView,
    k: int,
    text: Seq<char>,
    document: JsonView,
)
    requires
        nothing_supplied(request, environment),
        is_first_readable(world, environment, k, text),
        json_document(text) == Ok::<JsonView, Seq<char>>(document),
        document.text_field("type"@) != Some("service_account"@),
        document.text_field("type"@) != Some("authorized_user"@),
    ensures
        ({
            let step = outcome(world, request, environment);
            let front = "the credential file at "@ + candidates(environment)[k];
            let kind = document.text_field("type"@);
            &&& kind == Some("external_account"@) ==> is_refused(
                step,
                front
                    + " is a workload identity (external_account) credential, which this connector does not support yet. Use a service account key or `gcloud auth application-default login`."@,
            )
            &&& kind is Some && kind != Some("external_account"@) ==> is_refused(
                step,
                front + " has an unrecognised credential type "@ + debug_text(kind->0) + "."@,
            )
            &&& kind is None ==> is_refused(
                step,
                front + " has an unrecognised credential type "@ + debug_text(Seq::empty()) + "."@,
            )
        }),
{
    files_are_told_apart_by_their_type(document, Seq::empty());
    lemma_file(world, request, environment, k, text);
}

/// Where no file can be read, the metadata server is asked; if it gives no token, the reason is
/// told, and where files were looked for.
pub proof fn the_metadata_server_comes_last(
    world: World,
    request: JsonView,
    environment: EnvironmentView,
)
    requires
        nothing_supplied(request, environment),
        forall|i: int|
            0 <= i < candidates(environment).len() ==> (world.read_file)(
                #[trigger] candidates(environment)[i],
            ) is None,
    ensures
        ({
            let step = outcome(world, request, environment);
            let paths = candidates(environment);
            let reply = (world.send)(
                metadata_request_of(
                    environment.metadata_host,
                    "https://www.googleapis.com/auth/cloud-platform"@,
                ),
            );
            &&& metadata_token_outcome(reply) matches Ok(token) ==> ends_with_own(
                step,
                world,
                request,
                None,
                Ok(token),
            )
            &&& metadata_token_outcome(reply) matches Err(message) ==> paths.len() == 0
                ==> is_refused(step, message)
            &&& metadata_token_outcome(reply) matches Err(message) ==> paths.len() > 0
                ==> is_refused(
                step,
                message + " (no credential file at: "@ + joined(paths, ", "@) + ")"@,
            )
        }),
{
    let paths = candidates(environment);
    world.connecting_is_settled(request, environment, 7);
    world.first_readable_file_decides(environment, paths, Seq::empty(), paths.len() as int);
    assert(Seq::<Seq<char>>::empty() + paths =~= paths);
}

/// Every stage takes in every event of the kind that it waits for; only a time must leave room for
/// an hour, and the name of an account must not be longer than any machine can hold.
pub proof fn stages_take_in_what_they_wait_for(
    key: Result<ServiceAccountKeyView, Seq<char>>,
    file: Option<Seq<char>>,
    reply: HttpReplyView,
    now: u64,
    path: Seq<char>,
    rest: Seq<Seq<char>>,
    tried: Seq<Seq<char>>,
    email: Seq<char>,
    private_key: Seq<char>,
    config: SpannerConfigView,
)
    ensures
        fits(StageView::RequestKey, EventView::Key(key)),
        fits(StageView::FileKey(path), EventView::Key(key)),
        fits(StageView::File(path, rest, tried), EventView::File(file)),
        fits(StageView::Assertion, EventView::Replied(reply)),
        fits(StageView::Refresh, EventView::Replied(reply)),
        fits(StageView::Metadata(tried), EventView::Replied(reply)),
        fits(StageView::Impersonation(email), EventView::Replied(reply)),
        fits(StageView::Session(config), EventView::Replied(reply)),
        now + 3600 <= u64::MAX && email.len() <= 0x0400_0000_0000_0000 ==> fits(
            StageView::Clock(email, private_key),
            EventView::Clock(now),
        ),
{
}

/// A run ends where nothing is asked for, and goes on with what came of what is asked for.
pub proof fn runs_go_action_by_action(world: World, step: StepView, actions: nat)
    ensures
        world.run(step, 0) == step,
        !(step is Perform) ==> world.run(step, actions) == step,
        step matches StepView::Perform(wanted, stage, action) ==> world.run(step, actions + 1)
            == world.run(continuation(wanted, stage, world.react(action)), actions),
{
    reveal_with_fuel(World::run, 1);
}

/// What comes of an action is what the world holds for it.
pub proof fn the_world_answers_for_itself(world: World, action: ActionView)
    ensures
        action matches ActionView::ReadKey(text) ==> world.react(action) == EventView::Key(
            (world.read_key)(text),
        ),
        action matches ActionView::ReadKeyDocument(text) ==> world.react(action) == EventView::Key(
            (world.read_key_document)(text),
        ),
        action is ReadClock ==> world.react(action) == EventView::Clock(world.now),
        action matches ActionView::ReadFile(path) ==> world.react(action) == EventView::File(
            (world.read_file)(path),
        ),
        action matches ActionView::Send(request) ==> world.react(action) == EventView::Replied(
            (world.send)(request),
        ),
{
}

/// The views of what makes up a step leave nothing out.
pub proof fn steps_are_viewed_whole(
    environment: Environment,
    wanted: Wanted,
    step: Step,
    action: Action,
    event: Event,
)
    ensures
        environment@.oauth_access_token == owned_text(environment.oauth_access_token),
        environment@.application_credentials == owned_text(environment.application_credentials),
        environment@.cloudsdk_config == owned_text(environment.cloudsdk_config),
        environment@.home == owned_text(environment.home),
        environment@.metadata_host == owned_text(environment.metadata_host),
        wanted@.request == wanted.request@,
        wanted@.environment == wanted.environment@,
        wanted@.key == key_view(wanted.key),
        step matches Step::Perform(w, s, a) ==> step@ == StepView::Perform(w@, s@, a@),
        step matches Step::Connected(connection) ==> step@ == StepView::Connected(connection@),
        step matches Step::Refused(reply) ==> step@ == StepView::Refused(reply@),
        action matches Action::ReadKey(text) ==> action@ == ActionView::ReadKey(text@),
        action matches Action::ReadKeyDocument(text) ==> action@ == ActionView::ReadKeyDocument(
            text@,
        ),
        action is ReadClock ==> action@ is ReadClock,
        action matches Action::ReadFile(path) ==> action@ == ActionView::ReadFile(path@),
        action matches Action::Send(request) ==> action@ == ActionView::Send(request@),
        event matches Event::Key(Ok(key)) ==> event@ == EventView::Key(Ok(key@)),
        event matches Event::Key(Err(message)) ==> event@ == EventView::Key(Err(message@)),
        event matches Event::Clock(now) ==> event@ == EventView::Clock(now),
        event matches Event::File(text) ==> event@ == EventView::File(owned_text(text)),
        event matches Event::Replied(reply) ==> event@ == EventView::Replied(reply@),
{
}

/// The view of a stage leaves nothing out.
pub proof fn stages_are_viewed_whole(stage: Stage)
    ensures
        stage is RequestKey ==> stage@ is RequestKey,
        stage matches Stage::File(path, rest, tried) ==> stage@ == StageView::File(
            path@,
            texts(rest@),
            texts(tried@),
        ),
        stage matches Stage::FileKey(path) ==> stage@ == StageView::FileKey(path@),
        stage matches Stage::Clock(email, private_key) ==> stage@ == StageView::Clock(
            email@,
            private_key@,
        ),
        stage is Assertion ==> stage@ is Assertion,
        stage is Refresh ==> stage@ is Refresh,
        stage matches Stage::Metadata(tried) ==> stage@ == StageView::Metadata(texts(tried@)),
        stage matches Stage::Impersonation(target) ==> stage@ == StageView::Impersonation(target@),
        stage matches Stage::Session(config) ==> stage@ == StageView::Session(config@),
{
}

/// A credential file is opened by what it was read as, and by its type alone: that of a service
/// account is read as a key, the login of a user is exchanged with its own fields, and everything
/// else is refused as invalid.
pub proof fn files_are_opened_by_their_type(
    wanted: WantedView,
    path: Seq<char>,
    text: Seq<char>,
    document: JsonView,
    message: Seq<char>,
)
    ensures
        is_refused(
            with_document(wanted, path, text, Err(message)),
            "credential file at "@ + path + " is not valid JSON: "@ + message,
        ),
        ({
            let step = with_document(wanted, path, text, Ok(document));
            let kind = document.text_field("type"@);
            let id = document.text_field("client_id"@);
            let secret = document.text_field("client_secret"@);
            let token = document.text_field("refresh_token"@);
            let complete = id is Some && secret is Some && token is Some;
            &&& kind == Some("service_account"@) ==> step == StepView::Perform(
                wanted,
                StageView::FileKey(path),
                ActionView::ReadKeyDocument(text),
            )
            &&& kind == Some("authorized_user"@) && complete ==> step == StepView::Perform(
                wanted,
                StageView::Refresh,
                ActionView::Send(
                    token_request_of(refresh_grant_body(id->0, secret->0, token->0)),
                ),
            )
            &&& kind == Some("authorized_user"@) && !complete ==> step is Refused
            &&& kind != Some("service_account"@) && kind != Some("authorized_user"@) ==> step
                is Refused
        }),
{
    files_are_told_apart_by_their_type(document, Seq::empty());
}

/// A session that was opened makes a connection with its name and the configuration that it was
/// opened with; where there is none, the reason is told, masked.
pub proof fn sessions_make_connections(
    config: SpannerConfigView,
    session: Seq<char>,
    message: Seq<char>,
)
    ensures
        with_session(config, Ok(session)) == StepView::Connected(
            SpannerConnectionView { config, session },
        ),
        with_session(config, Err(message)) == StepView::Refused(
            ReplyView::Error(
                "connector.connectFailed"@,
                redacted(message, config.redaction_values),
            ),
        ),
        is_refused(refusal(message), message),
{
}

} // verus!
