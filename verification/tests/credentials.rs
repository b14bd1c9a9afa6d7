use cloud_spanner::credentials::{
    adc_paths_from, assertion_grant_request, fetch_metadata_token, fetch_oauth2_token,
    fetch_refresh_token_grant, find_assertion_token, find_token, impersonate_service_account,
    impersonation_request, metadata_token_request, refresh_grant_request,
};
use cloud_spanner::http::{Body, HttpReply, HttpRequest, Method, Status};
use cloud_spanner::json::{member, text, Json};

fn status(code: u16) -> Status {
    Status::new(code).expect("a status")
}

fn answered(code: u16, body: &str) -> HttpReply {
    HttpReply::Answered(status(code), body.to_string())
}

fn unsent() -> HttpReply {
    HttpReply::Unsent("no route".to_string())
}

fn unread() -> HttpReply {
    HttpReply::Unread(status(200), "cut off".to_string())
}

fn ok(token: &str) -> Result<String, String> {
    Ok(token.to_string())
}

fn err(message: &str) -> Result<String, String> {
    Err(message.to_string())
}

fn form(body: &str) -> HttpRequest {
    HttpRequest {
        method: Method::Post,
        url: "https://oauth2.googleapis.com/token".to_string(),
        bearer: None,
        header: Some((
            "Content-Type".to_string(),
            "application/x-www-form-urlencoded".to_string(),
        )),
        body: Body::Text(body.to_string()),
    }
}

#[test]
fn an_explicit_path_is_trimmed_and_comes_first() {
    assert_eq!(
        adc_paths_from(Some(" /k.json\n"), None, Some("/h")),
        vec!["/k.json", "/h/.config/gcloud/application_default_credentials.json"]
    );
    // Unlike the path, a configured directory is taken as it is.
    assert_eq!(
        adc_paths_from(None, Some(""), Some("/h")),
        vec!["/application_default_credentials.json"]
    );
}

#[test]
fn a_refresh_grant_keeps_its_four_parameters() {
    assert_eq!(
        refresh_grant_request("i&d", "se=cret", "to+ken"),
        form(
            "grant_type=refresh_token&client_id=i%26d&client_secret=se%3Dcret\
             &refresh_token=to%2Bken"
        )
    );
}

#[test]
fn an_assertion_grant_has_its_two_parameters() {
    assert_eq!(
        assertion_grant_request("a.b.c"),
        form("grant_type=urn%3Aietf%3Aparams%3Aoauth%3Agrant-type%3Ajwt-bearer&assertion=a.b.c")
    );
}

#[test]
fn the_metadata_server_is_asked_with_its_header() {
    let path = "/computeMetadata/v1/instance/service-accounts/default/token?scopes=a%2Fb";
    for (host, url) in [
        (None, format!("http://metadata.google.internal{path}")),
        (Some("10.0.0.1:80"), format!("http://10.0.0.1:80{path}")),
    ] {
        assert_eq!(
            metadata_token_request(host, "a/b"),
            HttpRequest {
                method: Method::Get,
                url,
                bearer: None,
                header: Some(("Metadata-Flavor".to_string(), "Google".to_string())),
                body: Body::Empty,
            }
        );
    }
}

#[test]
fn impersonation_keeps_the_token_of_the_caller() {
    let delegates = vec!["d1".to_string(), "d2".to_string()];
    assert_eq!(
        impersonation_request("own", "svc@p", "scope", &delegates),
        HttpRequest {
            method: Method::Post,
            url: "https://iamcredentials.googleapis.com/v1/projects/-/serviceAccounts/svc%40p:generateAccessToken"
                .to_string(),
            bearer: Some("own".to_string()),
            header: None,
            body: Body::Json(Json::Object(vec![
                member("scope", Json::Array(vec![text("scope")])),
                member(
                    "delegates",
                    Json::Array(vec![
                        text("projects/-/serviceAccounts/d1"),
                        text("projects/-/serviceAccounts/d2"),
                    ]),
                ),
            ])),
        }
    );
}

#[test]
fn a_refresh_grant_is_answered_with_a_token() {
    let read = fetch_refresh_token_grant;
    assert_eq!(read(answered(200, r#"{"access_token":"t"}"#)), ok("t"));
    assert_eq!(read(unsent()), err("Google token request failed: no route"));
    assert_eq!(read(unread()), err("Google token response read failed: cut off"));
    // The text of the answer is not repeated: it can hold what was sent.
    assert_eq!(
        read(answered(400, "secret")),
        err("Google returned HTTP 400 Bad Request for the token request.")
    );
    for body in ["", "{}", r#"{"access_token":1}"#] {
        assert_eq!(
            read(answered(200, body)),
            err("Google token response contained no access_token.")
        );
    }
}

#[test]
fn the_metadata_server_answers_with_a_token() {
    let read = fetch_metadata_token;
    assert_eq!(read(answered(200, r#"{"access_token":"t"}"#)), ok("t"));
    // Its status is not looked at.
    assert_eq!(read(answered(500, r#"{"access_token":"t"}"#)), ok("t"));
    assert_eq!(
        read(unsent()),
        err(
            "no Google credentials found: set GOOGLE_APPLICATION_CREDENTIALS, run \
             `gcloud auth application-default login`, or supply a service account key."
        )
    );
    assert_eq!(read(unread()), err("metadata token response read failed: cut off"));
    assert_eq!(
        read(answered(404, "not here")),
        err("the metadata server returned no access_token.")
    );
}

#[test]
fn impersonation_is_answered_with_a_token() {
    let read = |reply| impersonate_service_account("svc", reply);
    assert_eq!(read(answered(200, r#"{"accessToken":"t"}"#)), ok("t"));
    assert_eq!(read(unsent()), err("impersonation request failed: no route"));
    assert_eq!(read(unread()), err("impersonation response read failed: cut off"));
    assert_eq!(
        read(answered(403, "denied")),
        err(
            "impersonating svc failed with HTTP 403 Forbidden. The caller needs \
             roles/iam.serviceAccountTokenCreator on that service account."
        )
    );
    assert_eq!(
        read(answered(200, r#"{"access_token":"t"}"#)),
        err("impersonation response contained no accessToken.")
    );
}

#[test]
fn an_assertion_is_answered_with_a_token() {
    let read = fetch_oauth2_token;
    assert_eq!(read(answered(200, r#"{"access_token":"t"}"#)), ok("t"));
    assert_eq!(read(unsent()), err("GCP token request failed: no route"));
    assert_eq!(read(unread()), err("GCP token response read failed: cut off"));
    assert_eq!(
        read(answered(401, "denied")),
        err("GCP token request returned HTTP 401 Unauthorized: denied")
    );
    assert_eq!(
        read(answered(200, "<html>")),
        err("GCP token JSON parse failed: expected value at line 1 column 1: <html>")
    );
    assert_eq!(
        read(answered(200, "{}")),
        err("GCP token response missing access_token.")
    );
}

#[test]
fn a_token_is_taken_out_of_a_document() {
    let document = || Json::Object(vec![member("f", text("t"))]);
    assert_eq!(find_token(Ok(document()), "f", "missing"), ok("t"));
    assert_eq!(find_token(Ok(document()), "g", "missing"), err("missing"));
    assert_eq!(find_token(Err("why".to_string()), "f", "missing"), err("missing"));
    assert_eq!(
        find_assertion_token("source", Err("why".to_string())),
        err("GCP token JSON parse failed: why: source")
    );
    assert_eq!(
        find_assertion_token("source", Ok(document())),
        err("GCP token response missing access_token.")
    );
}
