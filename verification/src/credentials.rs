//! Where access tokens come from: credential files, the metadata server and other accounts.

use vstd::prelude::*;
use vstd::utf8::encode_utf8;
use crate::encoding::base64_url;
use crate::encoding::base64_url_has_no_padding;
use crate::encoding::form_encode;
use crate::encoding::form_encoded;
use crate::http::Body;
use crate::http::BodyView;
use crate::http::HttpReply;
use crate::http::HttpReplyView;
use crate::http::HttpRequest;
use crate::http::HttpRequestView;
use crate::http::Method;
use crate::http::code_text;
use crate::http::is_success;
use crate::json::Json;
use crate::json::JsonView;
use crate::json::json_document;
use crate::json::json_result;
use crate::json::lemma_array_view;
use crate::json::lemma_object_view;
use crate::json::member;
use crate::json::members;
use crate::json::parse_json;
use crate::json::text;
use crate::json::values;
use crate::jwt::jwt_assertion;
use crate::jwt::jwt_claims;
use crate::jwt::jwt_header;
use crate::jwt::jwt_payload;
use crate::jwt::rs256;
use crate::text::borrowed_text;
use crate::text::cat2;
use crate::text::cat3;
use crate::text::same_text;
use crate::text::split;
use crate::text::text_result;
use crate::text::texts;
use crate::text::trim;
use crate::text::trimmed;

verus! {

broadcast use vstd::string::group_string_axioms;

/// What a credential file of Application Default Credentials holds, by its `type` field: the key
/// of a service account, the refresh token of a user, a workload identity, or something else.
#[derive(Debug, PartialEq, Eq)]
pub enum AdcKind {
    ServiceAccount,
    AuthorizedUser,
    ExternalAccount,
    Unknown(String),
}

/// The mathematical form of what a credential file holds.
pub enum AdcKindView {
    ServiceAccount,
    AuthorizedUser,
    ExternalAccount,
    Unknown(Seq<char>),
}

impl View for AdcKind {
    type V = AdcKindView;

    open spec fn view(&self) -> AdcKindView {
        match self {
            AdcKind::ServiceAccount => AdcKindView::ServiceAccount,
            AdcKind::AuthorizedUser => AdcKindView::AuthorizedUser,
            AdcKind::ExternalAccount => AdcKindView::ExternalAccount,
            AdcKind::Unknown(kind) => AdcKindView::Unknown(kind@),
        }
    }
}

/// What a credential file holds, by its `type` field; without one it is of an unknown kind with an
/// empty name.
pub open spec fn adc_kind_of(document: JsonView) -> AdcKindView {
    match document.text_field("type"@) {
        Some(kind) => if kind == "service_account"@ {
            AdcKindView::ServiceAccount
        } else if kind == "authorized_user"@ {
            AdcKindView::AuthorizedUser
        } else if kind == "external_account"@ {
            AdcKindView::ExternalAccount
        } else {
            AdcKindView::Unknown(kind)
        },
        None => AdcKindView::Unknown(Seq::empty()),
    }
}

/// What a credential file holds.
pub fn adc_kind(document: &Json) -> (kind: AdcKind)
    ensures
        kind@ == adc_kind_of(document@),
{
    match document.text_field("type") {
        Some(kind) => if same_text(kind.as_str(), "service_account") {
            AdcKind::ServiceAccount
        } else if same_text(kind.as_str(), "authorized_user") {
            AdcKind::AuthorizedUser
        } else if same_text(kind.as_str(), "external_account") {
            AdcKind::ExternalAccount
        } else {
            AdcKind::Unknown(kind)
        },
        None => AdcKind::Unknown(String::new()),
    }
}

/// The directory in which `gcloud` keeps its files: the one that is configured, or else the
/// well-known one under the home directory.
pub open spec fn gcloud_directory(
    cloudsdk_config: Option<Seq<char>>,
    home: Option<Seq<char>>,
) -> Option<Seq<char>> {
    match (cloudsdk_config, home) {
        (Some(directory), _) => Some(directory),
        (None, Some(home)) => Some(home + "/.config/gcloud"@),
        (None, None) => None,
    }
}

/// Where credential files are looked for, in order: the file that is named explicitly, unless the
/// name is blank, then the one that `gcloud` writes.
pub open spec fn adc_search(
    explicit: Option<Seq<char>>,
    cloudsdk_config: Option<Seq<char>>,
    home: Option<Seq<char>>,
) -> Seq<Seq<char>> {
    let named = match explicit {
        Some(path) => if trimmed(path).len() > 0 {
            seq![trimmed(path)]
        } else {
            Seq::empty()
        },
        None => Seq::empty(),
    };
    match gcloud_directory(cloudsdk_config, home) {
        Some(directory) => named.push(directory + "/application_default_credentials.json"@),
        None => named,
    }
}

/// Where credential files are looked for, in order.
pub fn adc_paths_from(
    explicit: Option<&str>,
    cloudsdk_config: Option<&str>,
    home: Option<&str>,
) -> (paths: Vec<String>)
    ensures
        texts(paths@) == adc_search(
            borrowed_text(explicit),
            borrowed_text(cloudsdk_config),
            borrowed_text(home),
        ),
{
    let mut paths: Vec<String> = Vec::new();
    if let Some(path) = explicit {
        let kept = trim(path);
        if !kept.as_str().is_empty() {
            paths.push(kept);
        }
    }
    let ghost named = texts(paths@);
    assert(named =~= match explicit {
        Some(path) => if trimmed(path@).len() > 0 {
            seq![trimmed(path@)]
        } else {
            Seq::empty()
        },
        None => Seq::empty(),
    });
    let directory = match cloudsdk_config {
        Some(directory) => Some(directory.to_string()),
        None => match home {
            Some(home) => Some(cat2(home, "/.config/gcloud")),
            None => None,
        },
    };
    if let Some(directory) = directory {
        let file = cat2(directory.as_str(), "/application_default_credentials.json");
        paths.push(file);
        assert(texts(paths@) =~= named.push(file@));
    }
    paths
}

/// An explicitly named file is looked at first; a blank name is no path at all; and with nothing
/// to go on there is no file to look at.
pub proof fn adc_search_order(
    explicit: Option<Seq<char>>,
    cloudsdk_config: Option<Seq<char>>,
    home: Option<Seq<char>>,
)
    ensures
        adc_search(explicit, cloudsdk_config, home).len() <= 2,
        explicit is Some && trimmed(explicit->0).len() > 0 ==> adc_search(
            explicit,
            cloudsdk_config,
            home,
        )[0] == trimmed(explicit->0),
        explicit is Some && trimmed(explicit->0).len() == 0 ==> adc_search(
            explicit,
            cloudsdk_config,
            home,
        ) == adc_search(None, cloudsdk_config, home),
        adc_search(None, None, None).len() == 0,
        cloudsdk_config is Some ==> adc_search(explicit, cloudsdk_config, home) == adc_search(
            explicit,
            cloudsdk_config,
            None,
        ),
        forall|i: int|
            0 <= i < adc_search(explicit, cloudsdk_config, home).len() ==> (
            #[trigger] adc_search(explicit, cloudsdk_config, home)[i]).len() > 0,
{
    reveal_strlit("/application_default_credentials.json");
}

/// The address at which Google hands out tokens.
pub open spec fn token_url() -> Seq<char> {
    "https://oauth2.googleapis.com/token"@
}

/// The scope that is asked for where Application Default Credentials or impersonation are used.
pub open spec fn cloud_scope() -> Seq<char> {
    "https://www.googleapis.com/auth/cloud-platform"@
}

/// A request that posts a form to where Google hands out tokens.
pub open spec fn token_request_of(body: Seq<char>) -> HttpRequestView {
    HttpRequestView {
        method: Method::Post,
        url: token_url(),
        bearer: None,
        header: Some(("Content-Type"@, "application/x-www-form-urlencoded"@)),
        body: BodyView::Text(body),
    }
}

fn token_request(body: String) -> (out: HttpRequest)
    ensures
        out@ == token_request_of(body@),
{
    HttpRequest {
        method: Method::Post,
        url: "https://oauth2.googleapis.com/token".to_string(),
        bearer: None,
        header: Some(
            ("Content-Type".to_string(), "application/x-www-form-urlencoded".to_string()),
        ),
        body: Body::Text(body),
    }
}

/// The form that exchanges a refresh token for an access token.
pub open spec fn refresh_grant_body(
    client_id: Seq<char>,
    client_secret: Seq<char>,
    refresh_token: Seq<char>,
) -> Seq<char> {
    "grant_type=refresh_token&client_id="@ + form_encoded(client_id) + "&client_secret="@
        + form_encoded(client_secret) + "&refresh_token="@ + form_encoded(refresh_token)
}

/// Asks for an access token in exchange for a refresh token.
pub fn refresh_grant_request(client_id: &str, client_secret: &str, refresh_token: &str) -> (out:
    HttpRequest)
    ensures
        out@ == token_request_of(refresh_grant_body(client_id@, client_secret@, refresh_token@)),
{
    let mut body = cat3(
        "grant_type=refresh_token&client_id=",
        form_encode(client_id).as_str(),
        "&client_secret=",
    );
    body.push_str(form_encode(client_secret).as_str());
    body.push_str("&refresh_token=");
    body.push_str(form_encode(refresh_token).as_str());
    token_request(body)
}

/// The text of a field of a document that could be read, or else a message.
pub open spec fn token_in(
    document: Result<JsonView, Seq<char>>,
    field: Seq<char>,
    missing: Seq<char>,
) -> Result<Seq<char>, Seq<char>> {
    match document {
        Ok(value) => match value.text_field(field) {
            Some(token) => Ok(token),
            None => Err(missing),
        },
        Err(_) => Err(missing),
    }
}

/// Takes the text of a field out of a document, where it could be read and has it.
pub fn find_token(document: Result<Json, String>, field: &str, missing: &str) -> (out: Result<
    String,
    String,
>)
    ensures
        text_result(out) == token_in(json_result(document), field@, missing@),
{
    match document {
        Ok(value) => match value.text_field(field) {
            Some(token) => Ok(token),
            None => Err(missing.to_string()),
        },
        Err(_) => Err(missing.to_string()),
    }
}

/// The access token in the reply to a refresh grant, or what went wrong.
pub open spec fn refresh_grant_outcome(reply: HttpReplyView) -> Result<Seq<char>, Seq<char>> {
    match reply {
        HttpReplyView::Unsent(message) => Err("Google token request failed: "@ + message),
        HttpReplyView::Unread(_, message) => Err("Google token response read failed: "@ + message),
        HttpReplyView::Answered(code, text) => if is_success(code) {
            token_in(
                json_document(text),
                "access_token"@,
                "Google token response contained no access_token."@,
            )
        } else {
            Err("Google returned HTTP "@ + code_text(code) + " for the token request."@)
        },
    }
}

/// Takes the access token out of the reply to a refresh grant.
pub fn fetch_refresh_token_grant(reply: HttpReply) -> (out: Result<String, String>)
    ensures
        text_result(out) == refresh_grant_outcome(reply@),
{
    match reply {
        HttpReply::Unsent(message) => Err(cat2("Google token request failed: ", message.as_str())),
        HttpReply::Unread(_, message) => Err(
            cat2("Google token response read failed: ", message.as_str()),
        ),
        HttpReply::Answered(status, text) => if status.is_success() {
            find_token(
                parse_json(text.as_str()),
                "access_token",
                "Google token response contained no access_token.",
            )
        } else {
            Err(
                cat3(
                    "Google returned HTTP ",
                    status.describe().as_str(),
                    " for the token request.",
                ),
            )
        },
    }
}

/// Asks the metadata server of the machine for an access token.
pub open spec fn metadata_request_of(host: Option<Seq<char>>, scope: Seq<char>) -> HttpRequestView {
    let server = match host {
        Some(host) => host,
        None => "metadata.google.internal"@,
    };
    HttpRequestView {
        method: Method::Get,
        url: "http://"@ + server
            + "/computeMetadata/v1/instance/service-accounts/default/token?scopes="@ + form_encoded(
            scope,
        ),
        bearer: None,
        header: Some(("Metadata-Flavor"@, "Google"@)),
        body: BodyView::Empty,
    }
}

/// Asks the metadata server of the machine for an access token.
pub fn metadata_token_request(host: Option<&str>, scope: &str) -> (out: HttpRequest)
    ensures
        out@ == metadata_request_of(borrowed_text(host), scope@),
{
    let server = match host {
        Some(host) => host,
        None => "metadata.google.internal",
    };
    let mut url = cat3(
        "http://",
        server,
        "/computeMetadata/v1/instance/service-accounts/default/token?scopes=",
    );
    url.push_str(form_encode(scope).as_str());
    HttpRequest {
        method: Method::Get,
        url,
        bearer: None,
        header: Some(("Metadata-Flavor".to_string(), "Google".to_string())),
        body: Body::Empty,
    }
}

/// What is said where no credentials can be found.
pub open spec fn no_credentials() -> Seq<char> {
    "no Google credentials found: set GOOGLE_APPLICATION_CREDENTIALS, run `gcloud auth application-default login`, or supply a service account key."@
}

/// The access token in the reply of the metadata server, or what went wrong.
pub open spec fn metadata_token_outcome(reply: HttpReplyView) -> Result<Seq<char>, Seq<char>> {
    match reply {
        HttpReplyView::Unsent(_) => Err(no_credentials()),
        HttpReplyView::Unread(_, message) => Err(
            "metadata token response read failed: "@ + message,
        ),
        HttpReplyView::Answered(_, text) => token_in(
            json_document(text),
            "access_token"@,
            "the metadata server returned no access_token."@,
        ),
    }
}

/// Takes the access token out of the reply of the metadata server.
pub fn fetch_metadata_token(reply: HttpReply) -> (out: Result<String, String>)
    ensures
        text_result(out) == metadata_token_outcome(reply@),
{
    match reply {
        HttpReply::Unsent(_) => Err(
            "no Google credentials found: set GOOGLE_APPLICATION_CREDENTIALS, run `gcloud auth application-default login`, or supply a service account key.".to_string(),
        ),
        HttpReply::Unread(_, message) => Err(
            cat2("metadata token response read failed: ", message.as_str()),
        ),
        HttpReply::Answered(_, text) => find_token(
            parse_json(text.as_str()),
            "access_token",
            "the metadata server returned no access_token.",
        ),
    }
}

/// The resource names of the service accounts through which to act.
pub open spec fn delegate_names(delegates: Seq<Seq<char>>) -> Seq<JsonView> {
    delegates.map_values(|d: Seq<char>| JsonView::Text("projects/-/serviceAccounts/"@ + d))
}

/// What is asked for of another service account: a scope, and through whom.
pub open spec fn impersonation_body(scope: Seq<char>, delegates: Seq<Seq<char>>) -> JsonView {
    JsonView::Object(
        seq![
            ("scope"@, JsonView::Array(seq![JsonView::Text(scope)])),
            ("delegates"@, JsonView::Array(delegate_names(delegates))),
        ],
    )
}

/// Asks for an access token of another service account.
pub open spec fn impersonation_request_of(
    source_token: Seq<char>,
    target: Seq<char>,
    scope: Seq<char>,
    delegates: Seq<Seq<char>>,
) -> HttpRequestView {
    HttpRequestView {
        method: Method::Post,
        url: "https://iamcredentials.googleapis.com/v1/projects/-/serviceAccounts/"@ + form_encoded(
            target,
        ) + ":generateAccessToken"@,
        bearer: Some(source_token),
        header: None,
        body: BodyView::Json(impersonation_body(scope, delegates)),
    }
}

/// Asks for an access token of another service account.
pub fn impersonation_request(
    source_token: &str,
    target: &str,
    scope: &str,
    delegates: &Vec<String>,
) -> (out: HttpRequest)
    ensures
        out@ == impersonation_request_of(source_token@, target@, scope@, texts(delegates@)),
{
    broadcast use {lemma_array_view, lemma_object_view};

    let mut through: Vec<Json> = Vec::new();
    let mut i: usize = 0;
    while i < delegates.len()
        invariant
            i <= delegates@.len(),
            values(through@) == delegate_names(texts(delegates@)).take(i as int),
        decreases delegates@.len() - i,
    {
        let ghost was = values(through@);
        let name = Json::Text(cat2("projects/-/serviceAccounts/", delegates[i].as_str()));
        through.push(name);
        assert(values(through@) =~= was.push(name@));
        assert(values(through@) =~= delegate_names(texts(delegates@)).take(i + 1));
        i += 1;
    }
    assert(values(through@) =~= delegate_names(texts(delegates@)));
    let mut scopes: Vec<Json> = Vec::new();
    scopes.push(text(scope));
    assert(values(scopes@) =~= seq![JsonView::Text(scope@)]);
    let mut fields: Vec<(String, Json)> = Vec::new();
    fields.push(member("scope", Json::Array(scopes)));
    fields.push(member("delegates", Json::Array(through)));
    assert(members(fields@)
        =~= impersonation_body(scope@, texts(delegates@))->Object_0);
    HttpRequest {
        method: Method::Post,
        url: cat3(
            "https://iamcredentials.googleapis.com/v1/projects/-/serviceAccounts/",
            form_encode(target).as_str(),
            ":generateAccessToken",
        ),
        bearer: Some(source_token.to_string()),
        header: None,
        body: Body::Json(Json::Object(fields)),
    }
}

/// The access token of another service account in a reply, or what went wrong.
pub open spec fn impersonation_outcome(target: Seq<char>, reply: HttpReplyView) -> Result<
    Seq<char>,
    Seq<char>,
> {
    match reply {
        HttpReplyView::Unsent(message) => Err("impersonation request failed: "@ + message),
        HttpReplyView::Unread(_, message) => Err("impersonation response read failed: "@ + message),
        HttpReplyView::Answered(code, text) => if is_success(code) {
            token_in(
                json_document(text),
                "accessToken"@,
                "impersonation response contained no accessToken."@,
            )
        } else {
            Err(
                "impersonating "@ + target + " failed with HTTP "@ + code_text(code)
                    + ". The caller needs roles/iam.serviceAccountTokenCreator on that service account."@,
            )
        },
    }
}

/// Takes the access token of another service account out of a reply.
pub fn impersonate_service_account(target: &str, reply: HttpReply) -> (out: Result<String, String>)
    ensures
        text_result(out) == impersonation_outcome(target@, reply@),
{
    match reply {
        HttpReply::Unsent(message) => Err(cat2("impersonation request failed: ", message.as_str())),
        HttpReply::Unread(_, message) => Err(
            cat2("impersonation response read failed: ", message.as_str()),
        ),
        HttpReply::Answered(status, text) => if status.is_success() {
            find_token(
                parse_json(text.as_str()),
                "accessToken",
                "impersonation response contained no accessToken.",
            )
        } else {
            let mut error = cat3("impersonating ", target, " failed with HTTP ");
            error.push_str(status.describe().as_str());
            error.push_str(
                ". The caller needs roles/iam.serviceAccountTokenCreator on that service account.",
            );
            Err(error)
        },
    }
}

/// The form that exchanges an assertion for an access token.
pub open spec fn assertion_grant_body(assertion: Seq<char>) -> Seq<char> {
    "grant_type=urn%3Aietf%3Aparams%3Aoauth%3Agrant-type%3Ajwt-bearer&assertion="@ + assertion
}

/// Asks for an access token in exchange for the assertion of a service account.
pub fn assertion_grant_request(assertion: &str) -> (out: HttpRequest)
    ensures
        out@ == token_request_of(assertion_grant_body(assertion@)),
{
    token_request(
        cat2(
            "grant_type=urn%3Aietf%3Aparams%3Aoauth%3Agrant-type%3Ajwt-bearer&assertion=",
            assertion,
        ),
    )
}

/// The access token in a document that was read from `text`, or what was wrong with it.
pub open spec fn assertion_token_in(text: Seq<char>, document: Result<JsonView, Seq<char>>) -> Result<
    Seq<char>,
    Seq<char>,
> {
    match document {
        Err(message) => Err("GCP token JSON parse failed: "@ + message + ": "@ + text),
        Ok(_) => token_in(
            document,
            "access_token"@,
            "GCP token response missing access_token."@,
        ),
    }
}

/// Takes the access token out of a document that was read from `text`.
pub fn find_assertion_token(text: &str, document: Result<Json, String>) -> (out: Result<
    String,
    String,
>)
    ensures
        text_result(out) == assertion_token_in(text@, json_result(document)),
{
    match document {
        Err(message) => {
            let mut error = cat3("GCP token JSON parse failed: ", message.as_str(), ": ");
            error.push_str(text);
            Err(error)
        },
        Ok(value) => find_token(
            Ok(value),
            "access_token",
            "GCP token response missing access_token.",
        ),
    }
}

/// The access token in the reply to an assertion, or what went wrong.
pub open spec fn assertion_grant_outcome(reply: HttpReplyView) -> Result<Seq<char>, Seq<char>> {
    match reply {
        HttpReplyView::Unsent(message) => Err("GCP token request failed: "@ + message),
        HttpReplyView::Unread(_, message) => Err("GCP token response read failed: "@ + message),
        HttpReplyView::Answered(code, text) => if is_success(code) {
            assertion_token_in(text, json_document(text))
        } else {
            Err("GCP token request returned HTTP "@ + code_text(code) + ": "@ + text)
        },
    }
}

/// Takes the access token out of the reply to an assertion.
pub fn fetch_oauth2_token(reply: HttpReply) -> (out: Result<String, String>)
    ensures
        text_result(out) == assertion_grant_outcome(reply@),
{
    match reply {
        HttpReply::Unsent(message) => Err(cat2("GCP token request failed: ", message.as_str())),
        HttpReply::Unread(_, message) => Err(
            cat2("GCP token response read failed: ", message.as_str()),
        ),
        HttpReply::Answered(status, text) => if status.is_success() {
            let document = parse_json(text.as_str());
            find_assertion_token(text.as_str(), document)
        } else {
            let mut error = cat3(
                "GCP token request returned HTTP ",
                status.describe().as_str(),
                ": ",
            );
            error.push_str(text.as_str());
            Err(error)
        },
    }
}

/// A text without the separator is its own only part.
pub proof fn lemma_split_whole(s: Seq<char>, sep: char)
    requires
        !s.contains(sep),
    ensures
        split(s, sep) == seq![s],
    decreases s.len(),
{
    if s.len() > 0 {
        assert forall|i: int| 0 <= i < s.drop_last().len() implies #[trigger] s.drop_last()[i]
            != sep by {
            assert(s[i] != sep);
        }
        lemma_split_whole(s.drop_last(), sep);
        assert(s.last() != sep);
        assert(s.drop_last().push(s.last()) =~= s);
        assert(split(s, sep) =~= seq![s]);
    } else {
        assert(s =~= Seq::<char>::empty());
    }
}

/// What stands behind the last separator is the last part.
pub proof fn lemma_split_behind(head: Seq<char>, tail: Seq<char>, sep: char)
    requires
        !tail.contains(sep),
    ensures
        split(head + seq![sep] + tail, sep) == split(head, sep).push(tail),
    decreases tail.len(),
{
    let all = head + seq![sep] + tail;
    if tail.len() > 0 {
        assert forall|i: int| 0 <= i < tail.drop_last().len() implies #[trigger] tail.drop_last()[i]
            != sep by {
            assert(tail[i] != sep);
        }
        lemma_split_behind(head, tail.drop_last(), sep);
        assert(tail.last() != sep);
        assert(all.drop_last() =~= head + seq![sep] + tail.drop_last());
        assert(tail.drop_last().push(tail.last()) =~= tail);
        assert(split(all, sep) =~= split(head, sep).push(tail));
    } else {
        assert(all.drop_last() =~= head);
        assert(tail =~= Seq::<char>::empty());
    }
}

proof fn lemma_parameter(name: Seq<char>, value: Seq<char>)
    requires
        !name.contains('&'),
    ensures
        !(name + form_encoded(value)).contains('&'),
{
    crate::encoding::form_encoding_is_safe(value);
    let whole = name + form_encoded(value);
    assert forall|i: int| 0 <= i < whole.len() implies whole[i] != '&' by {
        if i < name.len() {
            assert(whole[i] == name[i]);
        } else {
            assert(whole[i] == form_encoded(value)[i - name.len()]);
        }
    }
}

/// The form of a refresh grant has exactly its four parameters, whatever the values are: none of
/// them can introduce another.
pub proof fn refresh_grant_has_four_parameters(
    client_id: Seq<char>,
    client_secret: Seq<char>,
    refresh_token: Seq<char>,
)
    ensures
        split(refresh_grant_body(client_id, client_secret, refresh_token), '&') == seq![
            "grant_type=refresh_token"@,
            "client_id="@ + form_encoded(client_id),
            "client_secret="@ + form_encoded(client_secret),
            "refresh_token="@ + form_encoded(refresh_token),
        ],
{
    reveal_strlit("grant_type=refresh_token&client_id=");
    reveal_strlit("grant_type=refresh_token");
    reveal_strlit("client_id=");
    reveal_strlit("client_secret=");
    reveal_strlit("refresh_token=");
    reveal_strlit("&client_secret=");
    reveal_strlit("&refresh_token=");
    let grant = "grant_type=refresh_token"@;
    let id = "client_id="@ + form_encoded(client_id);
    let secret = "client_secret="@ + form_encoded(client_secret);
    let token = "refresh_token="@ + form_encoded(refresh_token);
    let amp = seq!['&'];
    lemma_parameter("client_id="@, client_id);
    lemma_parameter("client_secret="@, client_secret);
    lemma_parameter("refresh_token="@, refresh_token);
    lemma_split_whole(grant, '&');
    lemma_split_behind(grant, id, '&');
    lemma_split_behind(grant + amp + id, secret, '&');
    lemma_split_behind(grant + amp + id + amp + secret, token, '&');
    assert("grant_type=refresh_token&client_id="@ =~= grant + amp + "client_id="@);
    assert("&client_secret="@ =~= amp + "client_secret="@);
    assert("&refresh_token="@ =~= amp + "refresh_token="@);
    assert(refresh_grant_body(client_id, client_secret, refresh_token) =~= grant + amp + id + amp
        + secret + amp + token);
    assert(split(refresh_grant_body(client_id, client_secret, refresh_token), '&')
        =~= seq![grant, id, secret, token]);
}

/// The form of an assertion grant has exactly its two parameters.
pub proof fn assertion_grant_has_two_parameters(
    email: Seq<char>,
    private_key: Seq<char>,
    now: nat,
)
    requires
        jwt_assertion(email, private_key, now) is Ok,
    ensures
        ({
            let assertion = jwt_assertion(email, private_key, now)->Ok_0;
            split(assertion_grant_body(assertion), '&') == seq![
                "grant_type=urn%3Aietf%3Aparams%3Aoauth%3Agrant-type%3Ajwt-bearer"@,
                "assertion="@ + assertion,
            ]
        }),
{
    reveal_strlit("grant_type=urn%3Aietf%3Aparams%3Aoauth%3Agrant-type%3Ajwt-bearer&assertion=");
    reveal_strlit("grant_type=urn%3Aietf%3Aparams%3Aoauth%3Agrant-type%3Ajwt-bearer");
    reveal_strlit("assertion=");
    reveal_strlit(".");
    let grant = "grant_type=urn%3Aietf%3Aparams%3Aoauth%3Agrant-type%3Ajwt-bearer"@;
    let assertion = jwt_assertion(email, private_key, now)->Ok_0;
    let header = encode_utf8(jwt_header());
    let claims = encode_utf8(jwt_claims(email, now));
    let signature = rs256(private_key, encode_utf8(jwt_payload(email, now)))->Ok_0;
    base64_url_has_no_padding(header);
    base64_url_has_no_padding(claims);
    base64_url_has_no_padding(signature);
    let h = base64_url(header);
    let c = base64_url(claims);
    let s = base64_url(signature);
    let value = "assertion="@ + assertion;
    assert(value =~= "assertion="@ + h + "."@ + c + "."@ + s);
    assert forall|i: int| 0 <= i < value.len() implies value[i] != '&' by {
        if i < 10 {
        } else if i < 10 + h.len() {
            assert(value[i] == h[i - 10]);
        } else if i == 10 + h.len() {
            assert(value[i] == '.');
        } else if i < 11 + h.len() + c.len() {
            assert(value[i] == c[i - 11 - h.len()]);
        } else if i == 11 + h.len() + c.len() {
            assert(value[i] == '.');
        } else {
            assert(value[i] == s[i - 12 - h.len() - c.len()]);
        }
    }
    lemma_split_whole(grant, '&');
    lemma_split_behind(grant, value, '&');
    assert(assertion_grant_body(assertion) =~= grant + seq!['&'] + value);
    assert(split(assertion_grant_body(assertion), '&') =~= seq![grant, value]);
}

} // verus!
