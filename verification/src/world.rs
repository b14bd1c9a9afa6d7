//! What making a connection leads to, whatever the outside world answers.

use vstd::prelude::*;
use crate::config::ServiceAccountKeyView;
use crate::config::SpannerConfigView;
use crate::config::config_of;
use crate::config::explicit_token_of;
use crate::config::impersonation_delegates_of;
use crate::config::impersonation_target_of;
use crate::config::service_json_of;
use crate::connect::ActionView;
use crate::connect::EnvironmentView;
use crate::connect::EventView;
use crate::connect::StageView;
use crate::connect::StepView;
use crate::connect::WantedView;
use crate::connect::beginning;
use crate::connect::continuation;
use crate::connect::debug_text;
use crate::connect::external_account_message;
use crate::connect::fits;
use crate::connect::missing_field_message;
use crate::connect::refusal;
use crate::connect::search_outcome;
use crate::connect::seeking;
use crate::connect::with_access;
use crate::connect::with_document;
use crate::connect::with_key;
use crate::connect::with_outcome;
use crate::connect::with_session;
use crate::credentials::AdcKindView;
use crate::credentials::adc_kind_of;
use crate::credentials::adc_search;
use crate::credentials::adc_search_order;
use crate::credentials::assertion_grant_body;
use crate::credentials::assertion_grant_outcome;
use crate::credentials::cloud_scope;
use crate::credentials::impersonation_outcome;
use crate::credentials::impersonation_request_of;
use crate::credentials::metadata_request_of;
use crate::credentials::refresh_grant_body;
use crate::credentials::refresh_grant_outcome;
use crate::credentials::token_request_of;
use crate::http::HttpReplyView;
use crate::http::HttpRequestView;
use crate::http::request_json_outcome;
use crate::json::JsonView;
use crate::json::json_document;
use crate::jwt::LIFETIME;
use crate::jwt::LONGEST_EMAIL;
use crate::jwt::jwt_assertion;
use crate::session::create_session_request_of;
use crate::session::session_name;

verus! {

/// Whether an event can come of an action. A time must leave room for the lifetime of an
/// assertion.
pub open spec fn can_come_of(action: ActionView, event: EventView) -> bool {
    match (action, event) {
        (ActionView::ReadKey(_), EventView::Key(_)) => true,
        (ActionView::ReadKeyDocument(_), EventView::Key(_)) => true,
        (ActionView::ReadClock, EventView::Clock(now)) => now + LIFETIME <= u64::MAX,
        (ActionView::ReadFile(_), EventView::File(_)) => true,
        (ActionView::Send(_), EventView::Replied(_)) => true,
        _ => false,
    }
}

/// Whether the name of the service account that a stage keeps is short enough for an assertion.
pub open spec fn is_within_limits(stage: StageView) -> bool {
    stage matches StageView::Clock(email, _) ==> email.len() <= LONGEST_EMAIL
}

/// Whether a step waits for what can come of the action that it asks for.
pub open spec fn is_consistent(step: StepView) -> bool {
    match step {
        StepView::Perform(_, stage, action) => forall|event: EventView|
            can_come_of(action, event) && is_within_limits(stage) ==> #[trigger] fits(stage, event),
        _ => true,
    }
}

/// Every step waits for what can come of the action that it asks for, from the first one on: what
/// came of an action can always be handed in.
pub proof fn steps_wait_for_their_actions(
    request: JsonView,
    environment: EnvironmentView,
    wanted: WantedView,
    stage: StageView,
    event: EventView,
)
    requires
        fits(stage, event),
    ensures
        is_consistent(beginning(request, environment)),
        is_consistent(continuation(wanted, stage, event)),
{
}

/// A world in which a connection is made: how keys read, what time it is, what the files hold, and
/// what becomes of each request.
pub struct World {
    pub read_key: spec_fn(Seq<char>) -> Result<ServiceAccountKeyView, Seq<char>>,
    pub read_key_document: spec_fn(Seq<char>) -> Result<ServiceAccountKeyView, Seq<char>>,
    pub now: u64,
    pub read_file: spec_fn(Seq<char>) -> Option<Seq<char>>,
    pub send: spec_fn(HttpRequestView) -> HttpReplyView,
}

impl World {
    /// What comes of an action in this world.
    pub open spec fn react(self, action: ActionView) -> EventView {
        match action {
            ActionView::ReadKey(text) => EventView::Key((self.read_key)(text)),
            ActionView::ReadKeyDocument(text) => EventView::Key((self.read_key_document)(text)),
            ActionView::ReadClock => EventView::Clock(self.now),
            ActionView::ReadFile(path) => EventView::File((self.read_file)(path)),
            ActionView::Send(request) => EventView::Replied((self.send)(request)),
        }
    }

    /// Where the making of a connection stands after at most `actions` further actions.
    #[verifier::opaque]
    pub open spec fn run(self, step: StepView, actions: nat) -> StepView
        decreases actions,
    {
        match step {
            StepView::Perform(wanted, stage, action) => if actions == 0 {
                step
            } else {
                self.run(continuation(wanted, stage, self.react(action)), (actions - 1) as nat)
            },
            _ => step,
        }
    }

    /// The access token that a service account is given for an assertion.
    pub open spec fn assertion_token(self, key: ServiceAccountKeyView) -> Result<
        Seq<char>,
        Seq<char>,
    > {
        match jwt_assertion(key.client_email, key.private_key, self.now as nat) {
            Ok(assertion) => assertion_grant_outcome(
                (self.send)(token_request_of(assertion_grant_body(assertion))),
            ),
            Err(message) => Err(message),
        }
    }

    /// The access token that a credential file leads to, by its kind.
    pub open spec fn document_token(
        self,
        path: Seq<char>,
        text: Seq<char>,
        document: JsonView,
    ) -> Result<Seq<char>, Seq<char>> {
        match adc_kind_of(document) {
            AdcKindView::ServiceAccount => match (self.read_key_document)(text) {
                Ok(key) => self.assertion_token(key),
                Err(message) => Err(
                    "service account file at "@ + path + " is missing fields: "@ + message,
                ),
            },
            AdcKindView::AuthorizedUser => match (
                document.text_field("client_id"@),
                document.text_field("client_secret"@),
                document.text_field("refresh_token"@),
            ) {
                (None, _, _) => Err(missing_field_message(path, "client_id"@)),
                (Some(_), None, _) => Err(missing_field_message(path, "client_secret"@)),
                (Some(_), Some(_), None) => Err(missing_field_message(path, "refresh_token"@)),
                (Some(id), Some(secret), Some(token)) => refresh_grant_outcome(
                    (self.send)(token_request_of(refresh_grant_body(id, secret, token))),
                ),
            },
            AdcKindView::ExternalAccount => Err(external_account_message(path)),
            AdcKindView::Unknown(kind) => Err(
                "the credential file at "@ + path + " has an unrecognised credential type "@
                    + debug_text(kind) + "."@,
            ),
        }
    }

    /// The access token that the text of a credential file leads to.
    pub open spec fn file_token(self, path: Seq<char>, text: Seq<char>) -> Result<
        Seq<char>,
        Seq<char>,
    > {
        match json_document(text) {
            Err(message) => Err(
                "credential file at "@ + path + " is not valid JSON: "@ + message,
            ),
            Ok(document) => self.document_token(path, text, document),
        }
    }

    /// The access token of Application Default Credentials: the first file that can be read
    /// decides; without any, the metadata server does.
    pub open spec fn default_token(
        self,
        environment: EnvironmentView,
        paths: Seq<Seq<char>>,
        tried: Seq<Seq<char>>,
    ) -> Result<Seq<char>, Seq<char>>
        decreases paths.len(),
    {
        if paths.len() == 0 {
            search_outcome(
                (self.send)(metadata_request_of(environment.metadata_host, cloud_scope())),
                tried,
            )
        } else {
            match (self.read_file)(paths[0]) {
                None => self.default_token(environment, paths.drop_first(), tried.push(paths[0])),
                Some(text) => self.file_token(paths[0], text),
            }
        }
    }

    /// The token of the caller: that of the key in the request, or the one in the request or the
    /// environment, or that of Application Default Credentials; and the key in the request.
    pub open spec fn caller_token(self, request: JsonView, environment: EnvironmentView) -> (
        Result<Seq<char>, Seq<char>>,
        Option<ServiceAccountKeyView>,
    ) {
        match service_json_of(request) {
            Some(text) => match (self.read_key)(text) {
                Ok(key) => (self.assertion_token(key), Some(key)),
                Err(message) => (Err("invalid Google service account JSON: "@ + message), None),
            },
            None => match explicit_token_of(request, environment.oauth_access_token) {
                Some(token) => (Ok(token), None),
                None => (
                    self.default_token(
                        environment,
                        adc_search(
                            environment.application_credentials,
                            environment.cloudsdk_config,
                            environment.home,
                        ),
                        Seq::empty(),
                    ),
                    None,
                ),
            },
        }
    }

    /// The token to present to the database: that of the caller, or that of the service account
    /// to act as.
    pub open spec fn access_token(self, request: JsonView, token: Seq<char>) -> Result<
        Seq<char>,
        Seq<char>,
    > {
        match impersonation_target_of(request) {
            Some(target) => impersonation_outcome(
                target,
                (self.send)(
                    impersonation_request_of(
                        token,
                        target,
                        cloud_scope(),
                        impersonation_delegates_of(request),
                    ),
                ),
            ),
            None => Ok(token),
        }
    }

    /// The configuration that a request leads to.
    pub open spec fn configuration(self, request: JsonView, environment: EnvironmentView) -> Result<
        SpannerConfigView,
        Seq<char>,
    > {
        let (token, key) = self.caller_token(request, environment);
        match token {
            Err(message) => Err(message),
            Ok(token) => match self.access_token(request, token) {
                Err(message) => Err(message),
                Ok(token) => config_of(request, key, token),
            },
        }
    }

    /// What a request to connect leads to: a connection, or an answer.
    pub open spec fn connection(self, request: JsonView, environment: EnvironmentView) -> StepView {
        self.opened(self.configuration(request, environment))
    }

    /// What a configuration leads to.
    pub open spec fn opened(self, config: Result<SpannerConfigView, Seq<char>>) -> StepView {
        match config {
            Err(message) => refusal(message),
            Ok(config) => with_session(
                config,
                session_name(
                    request_json_outcome((self.send)(create_session_request_of(config))),
                ),
            ),
        }
    }

    /// What a token of the caller leads to.
    spec fn granted(self, wanted: WantedView, token: Result<Seq<char>, Seq<char>>) -> StepView {
        self.opened(
            match token {
                Err(message) => Err(message),
                Ok(token) => match self.access_token(wanted.request, token) {
                    Err(message) => Err(message),
                    Ok(token) => config_of(wanted.request, wanted.key, token),
                },
            },
        )
    }

    proof fn lemma_run_on(
        self,
        wanted: WantedView,
        stage: StageView,
        action: ActionView,
        actions: nat,
    )
        requires
            actions >= 1,
        ensures
            self.run(StepView::Perform(wanted, stage, action), actions) == self.run(
                continuation(wanted, stage, self.react(action)),
                (actions - 1) as nat,
            ),
    {
        reveal_with_fuel(World::run, 1);
    }

    proof fn lemma_run_ends(self, step: StepView, actions: nat)
        requires
            !(step is Perform),
        ensures
            self.run(step, actions) == step,
    {
        reveal_with_fuel(World::run, 1);
    }

    proof fn lemma_run_access(self, wanted: WantedView, token: Seq<char>, actions: nat)
        requires
            actions >= 1,
        ensures
            self.run(with_access(wanted, token), actions) == self.opened(
                config_of(wanted.request, wanted.key, token),
            ),
    {
        match config_of(wanted.request, wanted.key, token) {
            Ok(config) => {
                let action = ActionView::Send(create_session_request_of(config));
                let stage = StageView::Session(config);
                self.lemma_run_on(wanted, stage, action, actions);
                self.lemma_run_ends(
                    continuation(wanted, stage, self.react(action)),
                    (actions - 1) as nat,
                );
            },
            Err(message) => {
                self.lemma_run_ends(refusal(message), actions);
            },
        }
    }

    proof fn lemma_run_outcome(
        self,
        wanted: WantedView,
        token: Result<Seq<char>, Seq<char>>,
        actions: nat,
    )
        requires
            actions >= 2,
        ensures
            self.run(with_outcome(wanted, token), actions) == self.granted(wanted, token),
    {
        match token {
            Err(message) => {
                self.lemma_run_ends(refusal(message), actions);
            },
            Ok(own) => match impersonation_target_of(wanted.request) {
                None => {
                    self.lemma_run_access(wanted, own, actions);
                },
                Some(target) => {
                    let stage = StageView::Impersonation(target);
                    let action = ActionView::Send(
                        impersonation_request_of(
                            own,
                            target,
                            cloud_scope(),
                            impersonation_delegates_of(wanted.request),
                        ),
                    );
                    self.lemma_run_on(wanted, stage, action, actions);
                    match self.access_token(wanted.request, own) {
                        Ok(borrowed) => {
                            self.lemma_run_access(wanted, borrowed, (actions - 1) as nat);
                        },
                        Err(message) => {
                            self.lemma_run_ends(refusal(message), (actions - 1) as nat);
                        },
                    }
                },
            },
        }
    }

    proof fn lemma_run_key(self, wanted: WantedView, key: ServiceAccountKeyView, actions: nat)
        requires
            actions >= 4,
        ensures
            self.run(with_key(wanted, key), actions) == self.granted(
                wanted,
                self.assertion_token(key),
            ),
    {
        let clock = StageView::Clock(key.client_email, key.private_key);
        self.lemma_run_on(wanted, clock, ActionView::ReadClock, actions);
        match jwt_assertion(key.client_email, key.private_key, self.now as nat) {
            Err(message) => {
                self.lemma_run_ends(refusal(message), (actions - 1) as nat);
            },
            Ok(assertion) => {
                let action = ActionView::Send(token_request_of(assertion_grant_body(assertion)));
                self.lemma_run_on(wanted, StageView::Assertion, action, (actions - 1) as nat);
                self.lemma_run_outcome(wanted, self.assertion_token(key), (actions - 2) as nat);
            },
        }
    }

    proof fn lemma_run_refresh(
        self,
        wanted: WantedView,
        path: Seq<char>,
        text: Seq<char>,
        document: JsonView,
        actions: nat,
    )
        requires
            actions >= 3,
            adc_kind_of(document) is AuthorizedUser,
        ensures
            self.run(
                with_document(wanted, path, text, Ok(document)),
                actions,
            ) == self.granted(wanted, self.document_token(path, text, document)),
    {
        match (
            document.text_field("client_id"@),
            document.text_field("client_secret"@),
            document.text_field("refresh_token"@),
        ) {
            (Some(id), Some(secret), Some(token)) => {
                let action = ActionView::Send(
                    token_request_of(refresh_grant_body(id, secret, token)),
                );
                self.lemma_run_on(wanted, StageView::Refresh, action, actions);
                self.lemma_run_outcome(
                    wanted,
                    self.document_token(path, text, document),
                    (actions - 1) as nat,
                );
            },
            _ => {
                self.lemma_run_ends(with_document(wanted, path, text, Ok(document)), actions);
            },
        }
    }

    proof fn lemma_run_document(
        self,
        wanted: WantedView,
        path: Seq<char>,
        text: Seq<char>,
        document: JsonView,
        actions: nat,
    )
        requires
            actions >= 5,
        ensures
            self.run(
                with_document(wanted, path, text, Ok(document)),
                actions,
            ) == self.granted(wanted, self.document_token(path, text, document)),
    {
        match adc_kind_of(document) {
            AdcKindView::ServiceAccount => {
                let action = ActionView::ReadKeyDocument(text);
                self.lemma_run_on(wanted, StageView::FileKey(path), action, actions);
                match (self.read_key_document)(text) {
                    Ok(key) => {
                        self.lemma_run_key(wanted, key, (actions - 1) as nat);
                    },
                    Err(message) => {
                        self.lemma_run_ends(
                            continuation(wanted, StageView::FileKey(path), self.react(action)),
                            (actions - 1) as nat,
                        );
                    },
                }
            },
            AdcKindView::AuthorizedUser => {
                self.lemma_run_refresh(wanted, path, text, document, actions);
            },
            _ => {
                self.lemma_run_ends(with_document(wanted, path, text, Ok(document)), actions);
            },
        }
    }

    proof fn lemma_run_search(
        self,
        wanted: WantedView,
        paths: Seq<Seq<char>>,
        tried: Seq<Seq<char>>,
        actions: nat,
    )
        requires
            actions >= paths.len() + 5,
        ensures
            self.run(seeking(wanted, paths, tried), actions) == self.granted(
                wanted,
                self.default_token(wanted.environment, paths, tried),
            ),
        decreases paths.len(),
    {
        let left = (actions - 1) as nat;
        if paths.len() == 0 {
            let action = ActionView::Send(
                metadata_request_of(wanted.environment.metadata_host, cloud_scope()),
            );
            self.lemma_run_on(wanted, StageView::Metadata(tried), action, actions);
            self.lemma_run_outcome(
                wanted,
                self.default_token(wanted.environment, paths, tried),
                left,
            );
        } else {
            let path = paths[0];
            let stage = StageView::File(path, paths.drop_first(), tried);
            let action = ActionView::ReadFile(path);
            self.lemma_run_on(wanted, stage, action, actions);
            match (self.read_file)(path) {
                None => {
                    self.lemma_run_search(wanted, paths.drop_first(), tried.push(path), left);
                },
                Some(text) => match json_document(text) {
                    Ok(document) => {
                        self.lemma_run_document(wanted, path, text, document, left);
                    },
                    Err(message) => {
                        self.lemma_run_ends(
                            with_document(wanted, path, text, Err(message)),
                            left,
                        );
                    },
                },
            }
        }
    }

    /// In any world, a request to connect is settled after at most seven actions, and it leads to
    /// what the world holds for it: the order in which credentials are looked for, whom to act
    /// as, the configuration and the session are as they are stated there.
    pub proof fn connecting_is_settled(
        self,
        request: JsonView,
        environment: EnvironmentView,
        actions: nat,
    )
        requires
            actions >= 7,
        ensures
            self.run(beginning(request, environment), actions) == self.connection(
                request,
                environment,
            ),
            !(self.connection(request, environment) is Perform),
    {
        let wanted = WantedView { request, environment, key: None };
        match service_json_of(request) {
            Some(text) => {
                let action = ActionView::ReadKey(text);
                self.lemma_run_on(wanted, StageView::RequestKey, action, actions);
                match (self.read_key)(text) {
                    Ok(key) => {
                        let known = WantedView { key: Some(key), ..wanted };
                        self.lemma_run_key(known, key, (actions - 1) as nat);
                    },
                    Err(message) => {
                        self.lemma_run_ends(
                            continuation(wanted, StageView::RequestKey, self.react(action)),
                            (actions - 1) as nat,
                        );
                    },
                }
            },
            None => match explicit_token_of(request, environment.oauth_access_token) {
                Some(token) => {
                    self.lemma_run_outcome(wanted, Ok(token), actions);
                },
                None => {
                    let paths = adc_search(
                        environment.application_credentials,
                        environment.cloudsdk_config,
                        environment.home,
                    );
                    adc_search_order(
                        environment.application_credentials,
                        environment.cloudsdk_config,
                        environment.home,
                    );
                    self.lemma_run_search(wanted, paths, Seq::empty(), actions);
                },
            },
        }
    }

    /// The first credential file that can be read decides, whatever it holds and whatever stands
    /// behind it; the metadata server is asked only where none can be read, and its failure then
    /// tells where files were looked for.
    pub proof fn first_readable_file_decides(
        self,
        environment: EnvironmentView,
        paths: Seq<Seq<char>>,
        tried: Seq<Seq<char>>,
        k: int,
    )
        requires
            0 <= k <= paths.len(),
            forall|i: int| 0 <= i < k ==> (self.read_file)(#[trigger] paths[i]) is None,
            k < paths.len() ==> (self.read_file)(paths[k]) is Some,
        ensures
            k < paths.len() ==> self.default_token(environment, paths, tried) == self.file_token(
                paths[k],
                (self.read_file)(paths[k])->0,
            ),
            k == paths.len() ==> self.default_token(environment, paths, tried) == search_outcome(
                (self.send)(metadata_request_of(environment.metadata_host, cloud_scope())),
                tried + paths,
            ),
        decreases k,
    {
        if k > 0 {
            let rest = paths.drop_first();
            assert forall|i: int| 0 <= i < k - 1 implies (self.read_file)(
                #[trigger] rest[i],
            ) is None by {
                assert(rest[i] == paths[i + 1]);
            }
            self.first_readable_file_decides(environment, rest, tried.push(paths[0]), k - 1);
            assert(tried.push(paths[0]) + rest =~= tried + paths);
        } else {
            assert(k == paths.len() ==> tried + paths =~= tried);
        }
    }

    /// Where a request brings its own credentials, neither the files nor the environment matter.
    pub proof fn supplied_credentials_suffice(
        self,
        other: World,
        request: JsonView,
        environment: EnvironmentView,
        elsewhere: EnvironmentView,
    )
        requires
            service_json_of(request) is Some || explicit_token_of(request, None) is Some,
            other.read_key == self.read_key,
            other.now == self.now,
            other.send == self.send,
        ensures
            self.connection(request, environment) == other.connection(request, elsewhere),
    {
    }
}

} // verus!
