use cloud_spanner::credentials::{adc_kind, adc_paths_from, AdcKind};
use cloud_spanner::encoding::{base64_url_encode, form_encode};
use cloud_spanner::json::{parse_json, text, Json};
use cloud_spanner::jwt::create_jwt_assertion;
use cloud_spanner::session::spanner_result_to_output;

fn document(source: &str) -> Json {
    parse_json(source).expect("a JSON document")
}

#[test]
fn encodes_base64_url_without_padding() {
    assert_eq!(base64_url_encode(b"abc"), "YWJj");
    assert_eq!(base64_url_encode(b"ab"), "YWI");
}

#[test]
fn rejects_invalid_service_account_private_keys_without_echoing_them() {
    let private_key = "not-a-private-key";
    let error = create_jwt_assertion(
        "service-account@example.invalid",
        private_key,
        1_700_000_000,
    )
    .expect_err("reject invalid JWT signing key");

    assert!(error.contains("private key"));
    assert!(!error.contains(private_key));
}

#[test]
fn maps_spanner_rows() {
    let value = document(
        r#"{
            "metadata": {"rowType": {"fields": [{"name": "id"}]}},
            "rows": [["1"]]
        }"#,
    );
    let (columns, rows, truncated) = spanner_result_to_output(value, 10);
    assert_eq!(columns, vec!["id"]);
    assert_eq!(rows[0], vec![text("1")]);
    assert!(!truncated);
}

#[test]
fn recognises_each_application_default_credential_shape() {
    // ADC is three different files needing three different exchanges, and
    // the `type` field is the only thing that says which.
    assert_eq!(
        adc_kind(&document(r#"{ "type": "service_account", "client_email": "a@b" }"#)),
        AdcKind::ServiceAccount
    );
    assert_eq!(
        adc_kind(&document(r#"{ "type": "authorized_user", "refresh_token": "r" }"#)),
        AdcKind::AuthorizedUser
    );
    assert_eq!(
        adc_kind(&document(r#"{ "type": "external_account" }"#)),
        AdcKind::ExternalAccount
    );
    assert_eq!(
        adc_kind(&document(r#"{ "type": "something_new" }"#)),
        AdcKind::Unknown("something_new".to_string())
    );
    assert_eq!(adc_kind(&document("{}")), AdcKind::Unknown(String::new()));
}

#[test]
fn looks_for_credentials_where_gcloud_puts_them() {
    // Matching the Google client libraries' search order means a machine
    // already set up for `gcloud` needs no configuration here.
    assert_eq!(
        adc_paths_from(
            Some("/keys/explicit.json"),
            Some("/cfg/gcloud"),
            Some("/home/u")
        ),
        vec![
            "/keys/explicit.json".to_string(),
            "/cfg/gcloud/application_default_credentials.json".to_string(),
        ]
    );
    // Without CLOUDSDK_CONFIG the well-known path under HOME is used.
    assert_eq!(
        adc_paths_from(None, None, Some("/home/u")),
        vec!["/home/u/.config/gcloud/application_default_credentials.json".to_string()]
    );
    // Nothing to go on: the caller falls through to the metadata server.
    assert!(adc_paths_from(None, None, None).is_empty());
}

#[test]
fn an_empty_credentials_variable_is_not_a_path() {
    // An exported-but-empty variable is common in shell profiles and would
    // otherwise send the search to "".
    assert_eq!(
        adc_paths_from(Some("   "), Some("/cfg"), None),
        vec!["/cfg/application_default_credentials.json".to_string()]
    );
}

#[test]
fn form_encoding_protects_the_grant_body() {
    // A refresh token or a service account email in a form body must not be
    // able to introduce another parameter.
    assert_eq!(form_encode("a&b=c"), "a%26b%3Dc");
    assert_eq!(
        form_encode("svc@project.iam.gserviceaccount.com"),
        "svc%40project.iam.gserviceaccount.com"
    );
    assert_eq!(form_encode("plain-Token_1.0~"), "plain-Token_1.0~");
}
