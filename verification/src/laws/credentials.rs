//! What holds of the ways to an access token.

use vstd::prelude::*;
use crate::credentials::AdcKind;
use crate::credentials::AdcKindView;
use crate::credentials::adc_kind_of;
use crate::credentials::adc_search;
use crate::credentials::assertion_grant_body;
use crate::credentials::assertion_grant_outcome;
use crate::credentials::assertion_token_in;
use crate::credentials::cloud_scope;
use crate::credentials::delegate_names;
use crate::credentials::impersonation_body;
use crate::credentials::impersonation_outcome;
use crate::credentials::impersonation_request_of;
use crate::credentials::metadata_request_of;
use crate::credentials::metadata_token_outcome;
use crate::credentials::refresh_grant_outcome;
use crate::credentials::token_in;
use crate::credentials::token_request_of;
use crate::encoding::form_encoded;
use crate::http::BodyView;
use crate::http::HttpReplyView;
use crate::http::Method;
use crate::http::reason_phrase;
use crate::json::JsonView;
use crate::json::json_document;
use crate::json::lookup;
use crate::laws::http::answers_count_by_their_status;
use crate::text::decimal;
use crate::text::trimmed;

verus! {

/// The body of an impersonation request names each delegate as it is: there are as many names as
/// delegates, and behind the prefix of a resource name stands the delegate, character for
/// character. The scope is the one that was given, and the only one.
pub proof fn delegates_are_named_as_they_are(
    source_token: Seq<char>,
    target: Seq<char>,
    scope: Seq<char>,
    delegates: Seq<Seq<char>>,
)
    ensures
        ({
            let prefix = "projects/-/serviceAccounts/"@;
            let request = impersonation_request_of(source_token, target, scope, delegates);
            &&& request.body matches BodyView::Json(body)
            &&& body.get("scope"@) == Some(JsonView::Array(seq![JsonView::Text(scope)]))
            &&& body.get("delegates"@) matches Some(JsonView::Array(listed))
            &&& listed.len() == delegates.len()
            &&& forall|i: int|
                0 <= i < delegates.len() ==> {
                    &&& (#[trigger] listed[i]) matches JsonView::Text(name)
                    &&& prefix.is_prefix_of(name)
                    &&& name.skip(prefix.len() as int) == delegates[i]
                }
            &&& body matches JsonView::Object(fields) && fields.len() == 2
        }),
{
    reveal_strlit("scope");
    reveal_strlit("delegates");
    let prefix = "projects/-/serviceAccounts/"@;
    let body = impersonation_body(scope, delegates);
    let fields = body->Object_0;
    assert(lookup(fields, "scope"@) == Some(fields[0].1));
    assert(fields.drop_first()[0] == fields[1]);
    assert(lookup(fields.drop_first(), "delegates"@) == Some(fields[1].1));
    assert("scope"@.len() != "delegates"@.len());
    assert(lookup(fields, "delegates"@) == Some(fields[1].1));
    assert(body.get("delegates"@) == Some(JsonView::Array(delegate_names(delegates))));
    assert(body.get("scope"@) == Some(JsonView::Array(seq![JsonView::Text(scope)])));
    let listed = delegate_names(delegates);
    assert forall|i: int| 0 <= i < delegates.len() implies {
        &&& (#[trigger] listed[i]) matches JsonView::Text(name)
        &&& prefix.is_prefix_of(name)
        &&& name.skip(prefix.len() as int) == delegates[i]
    } by {
        let name = prefix + delegates[i];
        assert(listed[i] == JsonView::Text(name));
        assert(name.subrange(0, prefix.len() as int) =~= prefix);
        assert(name.skip(prefix.len() as int) =~= delegates[i]);
    }
}

/// An impersonation request goes out under the token of the caller, to the account that is to be
/// acted as.
pub proof fn impersonation_is_asked_of_the_target(
    source_token: Seq<char>,
    target: Seq<char>,
    scope: Seq<char>,
    delegates: Seq<Seq<char>>,
)
    ensures
        ({
            let request = impersonation_request_of(source_token, target, scope, delegates);
            &&& request.method == Method::Post
            &&& request.bearer == Some(source_token)
            &&& request.header is None
            &&& request.url
                == "https://iamcredentials.googleapis.com/v1/projects/-/serviceAccounts/"@
                + form_encoded(target) + ":generateAccessToken"@
        }),
{
}

/// A form is posted as it is to where Google hands out tokens, and says that it is one.
pub proof fn forms_are_posted_as_they_are(body: Seq<char>)
    ensures
        ({
            let request = token_request_of(body);
            &&& request.method == Method::Post
            &&& request.url == "https://oauth2.googleapis.com/token"@
            &&& request.bearer is None
            &&& request.header == Some(("Content-Type"@, "application/x-www-form-urlencoded"@))
            &&& request.body == BodyView::Text(body)
        }),
{
}

/// An assertion is sent as it is, behind the name of its parameter.
pub proof fn assertions_are_sent_as_they_are(assertion: Seq<char>)
    ensures
        ({
            let front =
                "grant_type=urn%3Aietf%3Aparams%3Aoauth%3Agrant-type%3Ajwt-bearer&assertion="@;
            &&& front.is_prefix_of(assertion_grant_body(assertion))
            &&& assertion_grant_body(assertion).skip(front.len() as int) == assertion
        }),
{
    let front = "grant_type=urn%3Aietf%3Aparams%3Aoauth%3Agrant-type%3Ajwt-bearer&assertion="@;
    assert(assertion_grant_body(assertion).subrange(0, front.len() as int) =~= front);
    assert(assertion_grant_body(assertion).skip(front.len() as int) =~= assertion);
}

/// The metadata server is asked where it is, or else where it usually is, for the scope that is
/// wanted, with the header that it insists on and without any token.
pub proof fn the_metadata_server_is_asked_for_the_scope(host: Seq<char>, scope: Seq<char>)
    ensures
        ({
            let path = "/computeMetadata/v1/instance/service-accounts/default/token?scopes="@;
            let named = metadata_request_of(Some(host), scope);
            let usual = metadata_request_of(None, scope);
            &&& named.url == "http://"@ + host + path + form_encoded(scope)
            &&& usual == metadata_request_of(Some("metadata.google.internal"@), scope)
            &&& named.method == Method::Get
            &&& named.bearer is None
            &&& named.header == Some(("Metadata-Flavor"@, "Google"@))
            &&& named.body is Empty
        }),
        cloud_scope() == "https://www.googleapis.com/auth/cloud-platform"@,
{
}

/// A token is taken out of a document as it stands there, and there is one exactly where the field
/// is a text.
pub proof fn tokens_are_taken_as_they_stand(
    document: Result<JsonView, Seq<char>>,
    field: Seq<char>,
    missing: Seq<char>,
    token: Seq<char>,
)
    ensures
        token_in(document, field, missing) is Ok <==> (document matches Ok(value)
            && value.text_field(field) is Some),
        document matches Ok(value) ==> value.text_field(field) == Some(token) ==> token_in(
            document,
            field,
            missing,
        ) == Ok::<Seq<char>, Seq<char>>(token),
        token_in(document, field, missing) matches Err(message) ==> message == missing,
{
}

/// Whether the reply holds a token in a field of its text.
pub open spec fn holds_token(text: Seq<char>, field: Seq<char>, token: Seq<char>) -> bool {
    json_document(text) matches Ok(value) && value.text_field(field) == Some(token)
}

/// A refresh grant gives a token exactly where the answer is a success that holds one. A failure
/// never repeats the text of the answer.
pub proof fn refresh_grants_give_the_token_of_a_success(
    code: u16,
    text: Seq<char>,
    other: Seq<char>,
    token: Seq<char>,
)
    ensures
        refresh_grant_outcome(HttpReplyView::Answered(code, text)) == Ok::<Seq<char>, Seq<char>>(
            token,
        ) <==> 200 <= code < 300 && holds_token(text, "access_token"@, token),
        !(200 <= code < 300) ==> refresh_grant_outcome(HttpReplyView::Answered(code, text))
            == refresh_grant_outcome(HttpReplyView::Answered(code, other)),
        !(200 <= code < 300) ==> refresh_grant_outcome(HttpReplyView::Answered(code, text))
            == Err::<Seq<char>, Seq<char>>(
            "Google returned HTTP "@ + decimal(code as nat) + " "@ + reason_phrase(code)
                + " for the token request."@,
        ),
        200 <= code < 300 && refresh_grant_outcome(HttpReplyView::Answered(code, text)) is Err
            ==> refresh_grant_outcome(HttpReplyView::Answered(code, text))->Err_0
            == "Google token response contained no access_token."@,
{
    answers_count_by_their_status(code, text);
    assert("Google returned HTTP "@ + (decimal(code as nat) + " "@ + reason_phrase(code))
        + " for the token request."@ =~= "Google returned HTTP "@ + decimal(code as nat) + " "@
        + reason_phrase(code) + " for the token request."@);
}

/// The metadata server gives a token exactly where its answer holds one, whatever the status.
pub proof fn the_metadata_server_gives_its_token(
    code: u16,
    other: u16,
    text: Seq<char>,
    token: Seq<char>,
)
    ensures
        metadata_token_outcome(HttpReplyView::Answered(code, text)) == Ok::<Seq<char>, Seq<char>>(
            token,
        ) <==> holds_token(text, "access_token"@, token),
        metadata_token_outcome(HttpReplyView::Answered(code, text)) == metadata_token_outcome(
            HttpReplyView::Answered(other, text),
        ),
        metadata_token_outcome(HttpReplyView::Answered(code, text)) matches Err(message)
            ==> message == "the metadata server returned no access_token."@,
{
}

/// Impersonation gives a token exactly where the answer is a success that holds one; a failure
/// names the account and the status.
pub proof fn impersonation_gives_the_token_of_a_success(
    target: Seq<char>,
    code: u16,
    text: Seq<char>,
    token: Seq<char>,
)
    ensures
        impersonation_outcome(target, HttpReplyView::Answered(code, text)) == Ok::<
            Seq<char>,
            Seq<char>,
        >(token) <==> 200 <= code < 300 && holds_token(text, "accessToken"@, token),
        !(200 <= code < 300) ==> impersonation_outcome(target, HttpReplyView::Answered(code, text))
            == Err::<Seq<char>, Seq<char>>(
            "impersonating "@ + target + " failed with HTTP "@ + decimal(code as nat) + " "@
                + reason_phrase(code)
                + ". The caller needs roles/iam.serviceAccountTokenCreator on that service account."@,
        ),
        200 <= code < 300 && impersonation_outcome(
            target,
            HttpReplyView::Answered(code, text),
        ) is Err ==> impersonation_outcome(target, HttpReplyView::Answered(code, text))->Err_0
            == "impersonation response contained no accessToken."@,
{
    answers_count_by_their_status(code, text);
    let tail =
        ". The caller needs roles/iam.serviceAccountTokenCreator on that service account."@;
    assert("impersonating "@ + target + " failed with HTTP "@ + (decimal(code as nat) + " "@
        + reason_phrase(code)) + tail =~= "impersonating "@ + target + " failed with HTTP "@
        + decimal(code as nat) + " "@ + reason_phrase(code) + tail);
}

/// An assertion gives a token exactly where the answer is a success that holds one; a failure tells
/// the status and the text, or why the text could not be read.
pub proof fn assertions_give_the_token_of_a_success(code: u16, text: Seq<char>, token: Seq<char>)
    ensures
        assertion_grant_outcome(HttpReplyView::Answered(code, text)) == Ok::<Seq<char>, Seq<char>>(
            token,
        ) <==> 200 <= code < 300 && holds_token(text, "access_token"@, token),
        !(200 <= code < 300) ==> assertion_grant_outcome(HttpReplyView::Answered(code, text))
            == Err::<Seq<char>, Seq<char>>(
            "GCP token request returned HTTP "@ + decimal(code as nat) + " "@ + reason_phrase(code)
                + ": "@ + text,
        ),
        200 <= code < 300 ==> (json_document(text) matches Err(message) ==> assertion_grant_outcome(
            HttpReplyView::Answered(code, text),
        ) == Err::<Seq<char>, Seq<char>>(
            "GCP token JSON parse failed: "@ + message + ": "@ + text,
        )),
        200 <= code < 300 ==> (json_document(text) matches Ok(value) ==> value.text_field(
            "access_token"@,
        ) is None ==> assertion_grant_outcome(HttpReplyView::Answered(code, text)) == Err::<
            Seq<char>,
            Seq<char>,
        >("GCP token response missing access_token."@)),
        assertion_token_in(text, json_document(text)) == Ok::<Seq<char>, Seq<char>>(token)
            <==> holds_token(text, "access_token"@, token),
{
    answers_count_by_their_status(code, text);
    assert("GCP token request returned HTTP "@ + (decimal(code as nat) + " "@ + reason_phrase(
        code,
    )) + ": "@ + text =~= "GCP token request returned HTTP "@ + decimal(code as nat) + " "@
        + reason_phrase(code) + ": "@ + text);
}

/// Requests for tokens that did not come through fail with their reason; that the metadata server
/// could not be reached only means that there are no credentials.
pub proof fn lost_token_requests_fail(target: Seq<char>, code: u16, message: Seq<char>)
    ensures
        ({
            let unsent = HttpReplyView::Unsent(message);
            let unread = HttpReplyView::Unread(code, message);
            &&& refresh_grant_outcome(unsent) == Err::<Seq<char>, Seq<char>>(
                "Google token request failed: "@ + message,
            )
            &&& refresh_grant_outcome(unread) == Err::<Seq<char>, Seq<char>>(
                "Google token response read failed: "@ + message,
            )
            &&& assertion_grant_outcome(unsent) == Err::<Seq<char>, Seq<char>>(
                "GCP token request failed: "@ + message,
            )
            &&& assertion_grant_outcome(unread) == Err::<Seq<char>, Seq<char>>(
                "GCP token response read failed: "@ + message,
            )
            &&& impersonation_outcome(target, unsent) == Err::<Seq<char>, Seq<char>>(
                "impersonation request failed: "@ + message,
            )
            &&& impersonation_outcome(target, unread) == Err::<Seq<char>, Seq<char>>(
                "impersonation response read failed: "@ + message,
            )
            &&& metadata_token_outcome(unsent) == Err::<Seq<char>, Seq<char>>(
                "no Google credentials found: set GOOGLE_APPLICATION_CREDENTIALS, run `gcloud auth application-default login`, or supply a service account key."@,
            )
            &&& metadata_token_outcome(unread) == Err::<Seq<char>, Seq<char>>(
                "metadata token response read failed: "@ + message,
            )
        }),
{
}

/// The `type` of a credential file alone says what it is; any other name is kept as it is.
pub proof fn files_are_told_apart_by_their_type(document: JsonView, kind: Seq<char>)
    ensures
        adc_kind_of(document) is ServiceAccount <==> document.text_field("type"@) == Some(
            "service_account"@,
        ),
        adc_kind_of(document) is AuthorizedUser <==> document.text_field("type"@) == Some(
            "authorized_user"@,
        ),
        adc_kind_of(document) is ExternalAccount <==> document.text_field("type"@) == Some(
            "external_account"@,
        ),
        adc_kind_of(document) == AdcKindView::Unknown(kind) ==> document.text_field("type"@)
            == Some(kind) || document.text_field("type"@) is None && kind.len() == 0,
{
    reveal_strlit("service_account");
    reveal_strlit("authorized_user");
    reveal_strlit("external_account");
    assert("service_account"@[0] == 's' && "authorized_user"@[0] == 'a');
    assert("external_account"@[0] == 'e');
}

/// The files that are looked at, in order and none besides: the one that is named, unless the name
/// is blank, then the one in the directory of `gcloud`, which is under the home directory unless
/// another is configured.
pub proof fn files_are_looked_for_in_two_places(
    explicit: Option<Seq<char>>,
    cloudsdk_config: Option<Seq<char>>,
    home: Option<Seq<char>>,
)
    ensures
        ({
            let paths = adc_search(explicit, cloudsdk_config, home);
            let file = "/application_default_credentials.json"@;
            let named = explicit is Some && trimmed(explicit->0).len() > 0;
            let known = cloudsdk_config is Some || home is Some;
            &&& paths.len() == if named {
                1int
            } else {
                0
            } + if known {
                1int
            } else {
                0
            }
            &&& named ==> paths[0] == trimmed(explicit->0)
            &&& cloudsdk_config matches Some(directory) ==> paths.last() == directory + file
            &&& cloudsdk_config is None ==> (home matches Some(directory) ==> paths.last()
                == directory + "/.config/gcloud"@ + file)
        }),
{
}

/// The view of a kind of file is that kind.
pub proof fn kinds_are_viewed_whole(kind: AdcKind)
    ensures
        kind is ServiceAccount <==> kind@ is ServiceAccount,
        kind is AuthorizedUser <==> kind@ is AuthorizedUser,
        kind is ExternalAccount <==> kind@ is ExternalAccount,
        kind matches AdcKind::Unknown(name) ==> kind@ == AdcKindView::Unknown(name@),
{
}

/// The token in the answer to an assertion is the one in the document; a text that could not be
/// read is told whole, with the reason in front of it.
pub proof fn assertion_tokens_come_from_the_document(
    text: Seq<char>,
    value: JsonView,
    token: Seq<char>,
    message: Seq<char>,
)
    ensures
        value.text_field("access_token"@) == Some(token) ==> assertion_token_in(text, Ok(value))
            == Ok::<Seq<char>, Seq<char>>(token),
        value.text_field("access_token"@) is None ==> assertion_token_in(text, Ok(value)) == Err::<
            Seq<char>,
            Seq<char>,
        >("GCP token response missing access_token."@),
        ({
            let front = "GCP token JSON parse failed: "@ + message + ": "@;
            &&& assertion_token_in(text, Err(message)) matches Err(shown)
            &&& front.is_prefix_of(shown)
            &&& shown.skip(front.len() as int) == text
        }),
{
    let front = "GCP token JSON parse failed: "@ + message + ": "@;
    let shown = front + text;
    assert(shown.subrange(0, front.len() as int) =~= front);
    assert(shown.skip(front.len() as int) =~= text);
}

} // verus!
