use cloud_spanner::config::ServiceAccountKey;
use cloud_spanner::connect::{
    advance, begin, open_credentials, open_session, refuse, Action, Environment, Event, Step,
};
use cloud_spanner::http::{Body, HttpReply, Status};
use cloud_spanner::json::{parse_json, Json};
use cloud_spanner::reply::Reply;
use cloud_spanner::session::SpannerConnection;

const SETTINGS: &str = r#""projectId":"p","instanceId":"i","databaseId":"d""#;

fn request(more: &str) -> Json {
    parse_json(&format!("{{{SETTINGS}{more}}}")).expect("a JSON document")
}

fn nothing_set() -> Environment {
    Environment {
        oauth_access_token: None,
        application_credentials: None,
        cloudsdk_config: None,
        home: None,
        metadata_host: None,
    }
}

fn with_files() -> Environment {
    Environment {
        application_credentials: Some("/key.json".to_string()),
        home: Some("/home/u".to_string()),
        ..nothing_set()
    }
}

fn answered(code: u16, body: &str) -> Event {
    Event::Replied(HttpReply::Answered(
        Status::new(code).expect("a status"),
        body.to_string(),
    ))
}

fn action(step: &Step) -> &Action {
    match step {
        Step::Perform(_, _, action) => action,
        _ => panic!("the connection is settled"),
    }
}

fn after(step: Step, event: Event) -> Step {
    match step {
        Step::Perform(wanted, stage, _) => advance(wanted, stage, event),
        _ => panic!("the connection is settled"),
    }
}

fn refused(step: Step) -> (String, String) {
    match step {
        Step::Refused(Reply::Error(code, message)) => (code, message),
        _ => panic!("the connection is not refused"),
    }
}

fn invalid(message: &str) -> (String, String) {
    ("connector.invalidRequest".to_string(), message.to_string())
}

fn connected(step: Step) -> SpannerConnection {
    match step {
        Step::Connected(connection) => connection,
        _ => panic!("there is no connection"),
    }
}

fn sent(step: &Step) -> (&str, Option<&str>) {
    match action(step) {
        Action::Send(request) => (request.url.as_str(), request.bearer.as_deref()),
        _ => panic!("nothing is sent"),
    }
}

/// Opens the session, where the token is the one given, and gives the connection.
fn session_with(step: Step, token: &str) -> SpannerConnection {
    assert_eq!(
        sent(&step),
        (
            "https://spanner.googleapis.com/v1/projects/p/instances/i/databases/d:sessions",
            Some(token)
        )
    );
    let connection = connected(after(step, answered(200, r#"{"name":"s"}"#)));
    assert_eq!(connection.session, "s");
    assert_eq!(connection.config.access_token, token);
    connection
}

#[test]
fn a_token_in_the_request_goes_straight_to_the_session() {
    let step = begin(request(r#","token":"tok""#), with_files());
    session_with(step, "tok");
}

#[test]
fn a_token_in_the_environment_comes_next() {
    let environment = Environment {
        oauth_access_token: Some("env".to_string()),
        ..with_files()
    };
    session_with(begin(request(""), environment), "env");
}

#[test]
fn a_refused_session_is_told_without_the_token() {
    let step = begin(request(r#","token":"tok""#), nothing_set());
    assert_eq!(
        refused(after(step, answered(401, "tok is bad"))),
        (
            "connector.connectFailed".to_string(),
            "Cloud Spanner returned HTTP 401 Unauthorized: **** is bad".to_string()
        )
    );
}

#[test]
fn missing_settings_are_refused_before_anything_is_sent_to_the_database() {
    let step = begin(parse_json(r#"{"token":"t"}"#).unwrap(), nothing_set());
    assert_eq!(refused(step), invalid("Cloud Spanner requires projectId."));
}

#[test]
fn a_key_in_the_request_is_read_and_refused() {
    let step = begin(request(r#","serviceAccountJson":"{}""#), nothing_set());
    assert_eq!(action(&step), &Action::ReadKey("{}".to_string()));
    let step = after(step, Event::Key(Err("missing field".to_string())));
    assert_eq!(
        refused(step),
        invalid("invalid Google service account JSON: missing field")
    );
}

#[test]
fn a_key_that_cannot_sign_is_refused() {
    let key = ServiceAccountKey {
        project_id: "p".to_string(),
        client_email: "a@b".to_string(),
        private_key: "nonsense".to_string(),
    };
    let step = begin(request(r#","serviceAccountJson":"{}""#), nothing_set());
    let step = after(step, Event::Key(Ok(key)));
    assert_eq!(action(&step), &Action::ReadClock);
    let step = after(step, Event::Clock(1_700_000_000));
    assert_eq!(
        refused(step),
        invalid("invalid Google service account private key PEM.")
    );
}

#[test]
fn credential_files_are_tried_in_order() {
    let step = begin(request(""), with_files());
    assert_eq!(action(&step), &Action::ReadFile("/key.json".to_string()));
    let step = after(step, Event::File(None));
    let gcloud = "/home/u/.config/gcloud/application_default_credentials.json";
    assert_eq!(action(&step), &Action::ReadFile(gcloud.to_string()));
    let step = after(step, Event::File(None));
    assert_eq!(
        sent(&step),
        (
            "http://metadata.google.internal/computeMetadata/v1/instance/service-accounts/default/token?scopes=https%3A%2F%2Fwww.googleapis.com%2Fauth%2Fcloud-platform",
            None
        )
    );
    let step = after(step, Event::Replied(HttpReply::Unsent("x".to_string())));
    assert_eq!(
        refused(step),
        invalid(&format!(
            "no Google credentials found: set GOOGLE_APPLICATION_CREDENTIALS, run \
             `gcloud auth application-default login`, or supply a service account key. \
             (no credential file at: /key.json, {gcloud})"
        ))
    );
}

#[test]
fn the_metadata_server_serves_where_there_are_no_files() {
    let environment = Environment {
        metadata_host: Some("10.0.0.1".to_string()),
        ..nothing_set()
    };
    let step = begin(request(""), environment);
    assert!(sent(&step).0.starts_with("http://10.0.0.1/computeMetadata/"));
    let step = after(step, answered(200, r#"{"access_token":"meta"}"#));
    session_with(step, "meta");
    let step = after(begin(request(""), nothing_set()), answered(200, "{}"));
    assert_eq!(
        refused(step),
        invalid("the metadata server returned no access_token.")
    );
}

#[test]
fn the_first_readable_file_decides() {
    let read = |text: &str| {
        after(
            begin(request(""), with_files()),
            Event::File(Some(text.to_string())),
        )
    };
    assert_eq!(
        refused(read("oops")),
        invalid(
            "credential file at /key.json is not valid JSON: expected value at line 1 column 1"
        )
    );
    assert_eq!(
        refused(read(r#"{"type":"external_account"}"#)),
        invalid(
            "the credential file at /key.json is a workload identity (external_account) \
             credential, which this connector does not support yet. Use a service \
             account key or `gcloud auth application-default login`."
        )
    );
    assert_eq!(
        refused(read(r#"{"type":"a\"b\n"}"#)),
        invalid(
            r#"the credential file at /key.json has an unrecognised credential type "a\"b\n"."#
        )
    );
    assert_eq!(
        refused(read("{}")),
        invalid(r#"the credential file at /key.json has an unrecognised credential type ""."#)
    );
}

#[test]
fn the_login_of_a_user_is_exchanged_for_a_token() {
    let step = after(
        begin(request(""), with_files()),
        Event::File(Some(
            r#"{"type":"authorized_user","client_id":"i","client_secret":"s","refresh_token":"r"}"#
                .to_string(),
        )),
    );
    match action(&step) {
        Action::Send(request) => assert_eq!(
            request.body,
            Body::Text(
                "grant_type=refresh_token&client_id=i&client_secret=s&refresh_token=r".to_string()
            )
        ),
        _ => panic!("nothing is sent"),
    }
    let step = after(step, answered(200, r#"{"access_token":"user"}"#));
    session_with(step, "user");
}

#[test]
fn the_login_of_a_user_must_be_complete() {
    for (fields, missing) in [
        ("", "client_id"),
        (r#","client_id":"i""#, "client_secret"),
        (r#","client_id":"i","client_secret":"s""#, "refresh_token"),
    ] {
        let step = after(
            begin(request(""), with_files()),
            Event::File(Some(format!(r#"{{"type":"authorized_user"{fields}}}"#))),
        );
        assert_eq!(
            refused(step),
            invalid(&format!("credential file at /key.json is missing {missing}."))
        );
    }
}

#[test]
fn a_key_file_of_a_service_account_is_read_as_one() {
    let source = r#"{"type":"service_account"}"#;
    let read = || {
        after(
            begin(request(""), with_files()),
            Event::File(Some(source.to_string())),
        )
    };
    let step = read();
    assert_eq!(action(&step), &Action::ReadKeyDocument(source.to_string()));
    assert_eq!(
        refused(after(step, Event::Key(Err("missing field".to_string())))),
        invalid("service account file at /key.json is missing fields: missing field")
    );
    let key = ServiceAccountKey {
        project_id: "p".to_string(),
        client_email: "a@b".to_string(),
        private_key: "k".to_string(),
    };
    assert_eq!(action(&after(read(), Event::Key(Ok(key)))), &Action::ReadClock);
}

#[test]
fn another_service_account_is_acted_as() {
    let more = r#","token":"own","impersonateServiceAccount":"svc","impersonationDelegates":"x,y""#;
    let step = begin(request(more), nothing_set());
    assert_eq!(
        sent(&step),
        (
            "https://iamcredentials.googleapis.com/v1/projects/-/serviceAccounts/svc:generateAccessToken",
            Some("own")
        )
    );
    let step = after(step, answered(200, r#"{"accessToken":"borrowed"}"#));
    session_with(step, "borrowed");
    let step = after(begin(request(more), nothing_set()), answered(403, ""));
    assert_eq!(
        refused(step),
        invalid(
            "impersonating svc failed with HTTP 403 Forbidden. The caller needs \
             roles/iam.serviceAccountTokenCreator on that service account."
        )
    );
}

#[test]
fn a_file_is_opened_by_what_it_was_read_as() {
    let step = begin(request(""), with_files());
    let wanted = match step {
        Step::Perform(wanted, _, _) => wanted,
        _ => panic!("the connection is settled"),
    };
    let step = open_credentials(
        wanted,
        "/f".to_string(),
        "text".to_string(),
        Err("why".to_string()),
    );
    assert_eq!(
        refused(step),
        invalid("credential file at /f is not valid JSON: why")
    );
}

#[test]
fn a_session_is_opened_by_its_name() {
    let connection = session_with(begin(request(r#","token":"t""#), nothing_set()), "t");
    let step = open_session(connection.config.copy(), Ok("other".to_string()));
    assert_eq!(connected(step).session, "other");
    let step = open_session(connection.config, Err("t failed t".to_string()));
    assert_eq!(
        refused(step),
        (
            "connector.connectFailed".to_string(),
            "**** failed ****".to_string()
        )
    );
    assert_eq!(refused(refuse("why")), invalid("why"));
}
