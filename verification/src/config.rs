//! The settings in a request, and the configuration that they make up.

use vstd::prelude::*;
use crate::json::Json;
use crate::json::JsonView;
use crate::json::borrowed_json;
use crate::redaction::mask;
use crate::redaction::occurs;
use crate::redaction::occurs_at;
use crate::redaction::push_sensitive;
use crate::redaction::redact_all;
use crate::redaction::redacted;
use crate::redaction::redacted_hides_secrets;
use crate::redaction::stands_out;
use crate::redaction::with_sensitive;
use crate::text::cat3;
use crate::text::lemma_trimmed_is_part;
use crate::text::owned_text;
use crate::text::texts;
use crate::text::trim;
use crate::text::trimmed;

verus! {

broadcast use vstd::string::group_string_axioms;

/// The views of a list of borrowed texts.
pub open spec fn names(list: Seq<&str>) -> Seq<Seq<char>> {
    list.map_values(|s: &str| s@)
}

/// A list of the value, where there is one.
pub open spec fn listed(value: Option<JsonView>) -> Seq<JsonView> {
    match value {
        Some(value) => seq![value],
        None => Seq::empty(),
    }
}

/// A field of a value that may be missing.
pub open spec fn inner(value: Option<JsonView>, key: Seq<char>) -> Option<JsonView> {
    match value {
        Some(value) => value.get(key),
        None => None,
    }
}

/// The objects of a request in which a setting is looked for, in order: the request itself, then
/// its parts, then the parts of its profile.
pub open spec fn containers(request: JsonView) -> Seq<JsonView> {
    let profile = request.get("profile"@);
    seq![request] + listed(profile) + listed(request.get("options"@)) + listed(
        request.get("auth"@),
    ) + listed(request.get("secrets"@)) + listed(inner(profile, "options"@)) + listed(
        inner(profile, "auth"@),
    ) + listed(inner(profile, "secrets"@))
}

/// A JSON value as a setting: a text as it is, a number or a truth value as it is printed, and
/// anything else as nothing.
pub open spec fn setting_text(value: JsonView) -> Seq<char> {
    match value {
        JsonView::Text(s) => s,
        JsonView::Number(n) => n,
        JsonView::Bool(b) => if b {
            "true"@
        } else {
            "false"@
        },
        _ => Seq::empty(),
    }
}

/// The setting under one name in one object, trimmed; a blank one counts as missing.
pub open spec fn setting(container: JsonView, field: Seq<char>) -> Option<Seq<char>> {
    match container.get(field) {
        Some(value) => if trimmed(setting_text(value)).len() == 0 {
            None
        } else {
            Some(trimmed(setting_text(value)))
        },
        None => None,
    }
}

/// The first setting that one object has under one of the names.
pub open spec fn setting_among(container: JsonView, fields: Seq<Seq<char>>) -> Option<Seq<char>>
    decreases fields.len(),
{
    if fields.len() == 0 {
        None
    } else {
        match setting(container, fields[0]) {
            Some(found) => Some(found),
            None => setting_among(container, fields.drop_first()),
        }
    }
}

/// The setting of the first of the objects that has one under one of the names.
pub open spec fn first_setting(objects: Seq<JsonView>, fields: Seq<Seq<char>>) -> Option<Seq<char>>
    decreases objects.len(),
{
    if objects.len() == 0 {
        None
    } else {
        match setting_among(objects[0], fields) {
            Some(found) => Some(found),
            None => first_setting(objects.drop_first(), fields),
        }
    }
}

/// The setting of a request under one of the names.
pub open spec fn option_of(request: JsonView, fields: Seq<Seq<char>>) -> Option<Seq<char>> {
    first_setting(containers(request), fields)
}

/// The views of a list of borrowed JSON values.
pub open spec fn borrowed_values(list: Seq<&Json>) -> Seq<JsonView> {
    list.map_values(|value: &Json| value@)
}

fn list_if_some<'a>(list: &mut Vec<&'a Json>, value: Option<&'a Json>)
    ensures
        borrowed_values(final(list)@) == borrowed_values(old(list)@) + listed(
            borrowed_json(value),
        ),
{
    if let Some(found) = value {
        list.push(found);
    }
    assert(borrowed_values(list@) =~= borrowed_values(old(list)@) + listed(borrowed_json(value)));
}

fn inner_field<'a>(value: Option<&'a Json>, key: &str) -> (found: Option<&'a Json>)
    ensures
        borrowed_json(found) == inner(borrowed_json(value), key@),
{
    match value {
        Some(value) => value.get(key),
        None => None,
    }
}

/// The objects of a request in which a setting is looked for, in order.
pub fn request_containers(request: &Json) -> (out: Vec<&Json>)
    ensures
        borrowed_values(out@) == containers(request@),
{
    let profile = request.get("profile");
    let mut out: Vec<&Json> = Vec::new();
    out.push(request);
    assert(borrowed_values(out@) =~= seq![request@]);
    list_if_some(&mut out, profile);
    list_if_some(&mut out, request.get("options"));
    list_if_some(&mut out, request.get("auth"));
    list_if_some(&mut out, request.get("secrets"));
    list_if_some(&mut out, inner_field(profile, "options"));
    list_if_some(&mut out, inner_field(profile, "auth"));
    list_if_some(&mut out, inner_field(profile, "secrets"));
    out
}

fn find_setting(container: &Json, field: &str) -> (found: Option<String>)
    ensures
        owned_text(found) == setting(container@, field@),
{
    match container.get(field) {
        Some(value) => {
            let found = match value {
                Json::Text(s) => trim(s.as_str()),
                Json::Number(n) => trim(n.as_str()),
                Json::Bool(b) => if *b {
                    trim("true")
                } else {
                    trim("false")
                },
                _ => String::new(),
            };
            if found.as_str().is_empty() {
                None
            } else {
                Some(found)
            }
        },
        None => None,
    }
}

fn find_setting_among(container: &Json, fields: &[&str]) -> (found: Option<String>)
    ensures
        owned_text(found) == setting_among(container@, names(fields@)),
{
    let mut i: usize = 0;
    assert(names(fields@).skip(0) =~= names(fields@));
    while i < fields.len()
        invariant
            i <= fields@.len(),
            setting_among(container@, names(fields@).skip(i as int)) == setting_among(
                container@,
                names(fields@),
            ),
        decreases fields@.len() - i,
    {
        let ghost rest = names(fields@).skip(i as int);
        assert(rest[0] == fields@[i as int]@);
        assert(rest.drop_first() =~= names(fields@).skip(i + 1));
        let found = find_setting(container, fields[i]);
        if found.is_some() {
            return found;
        }
        i += 1;
    }
    None
}

/// The setting of a request under one of the names.
pub fn option_string(request: &Json, fields: &[&str]) -> (found: Option<String>)
    ensures
        owned_text(found) == option_of(request@, names(fields@)),
{
    let objects = request_containers(request);
    let ghost all = borrowed_values(objects@);
    let mut i: usize = 0;
    assert(all.skip(0) =~= all);
    while i < objects.len()
        invariant
            i <= objects@.len(),
            all == borrowed_values(objects@),
            first_setting(all.skip(i as int), names(fields@)) == first_setting(all, names(fields@)),
            all == containers(request@),
        decreases objects@.len() - i,
    {
        assert(all.skip(i as int)[0] == objects@[i as int]@);
        assert(all.skip(i as int).drop_first() =~= all.skip(i + 1));
        let found = find_setting_among(objects[i], fields);
        if found.is_some() {
            return found;
        }
        i += 1;
    }
    None
}

/// A setting that is found is trimmed and not blank.
pub proof fn settings_are_trimmed(request: JsonView, fields: Seq<Seq<char>>)
    ensures
        option_of(request, fields) matches Some(found) ==> found.len() > 0 && trimmed(found)
            == found,
{
    lemma_first_setting_trimmed(containers(request), fields);
}

proof fn lemma_first_setting_trimmed(objects: Seq<JsonView>, fields: Seq<Seq<char>>)
    ensures
        first_setting(objects, fields) matches Some(found) ==> found.len() > 0 && trimmed(found)
            == found,
    decreases objects.len(),
{
    if objects.len() > 0 {
        lemma_setting_among_trimmed(objects[0], fields);
        lemma_first_setting_trimmed(objects.drop_first(), fields);
    }
}

proof fn lemma_setting_among_trimmed(container: JsonView, fields: Seq<Seq<char>>)
    ensures
        setting_among(container, fields) matches Some(found) ==> found.len() > 0 && trimmed(found)
            == found,
    decreases fields.len(),
{
    if fields.len() > 0 {
        if let Some(value) = container.get(fields[0]) {
            crate::text::lemma_trimmed_idempotent(setting_text(value));
        }
        lemma_setting_among_trimmed(container, fields.drop_first());
    }
}

/// The first container of a request that has a setting under one of the names decides, whatever
/// the ones behind it hold; where none has one, the setting is missing.
pub proof fn outer_settings_win(request: JsonView, fields: Seq<Seq<char>>, k: int)
    requires
        0 <= k <= containers(request).len(),
        forall|i: int|
            0 <= i < k ==> setting_among(#[trigger] containers(request)[i], fields) is None,
        k < containers(request).len() ==> setting_among(containers(request)[k], fields) is Some,
    ensures
        k < containers(request).len() ==> option_of(request, fields) == setting_among(
            containers(request)[k],
            fields,
        ),
        k == containers(request).len() ==> option_of(request, fields) is None,
{
    lemma_first_setting(containers(request), fields, k);
}

proof fn lemma_first_setting(objects: Seq<JsonView>, fields: Seq<Seq<char>>, k: int)
    requires
        0 <= k <= objects.len(),
        forall|i: int| 0 <= i < k ==> setting_among(#[trigger] objects[i], fields) is None,
        k < objects.len() ==> setting_among(objects[k], fields) is Some,
    ensures
        k < objects.len() ==> first_setting(objects, fields) == setting_among(objects[k], fields),
        k == objects.len() ==> first_setting(objects, fields) is None,
    decreases k,
{
    if k > 0 {
        let rest = objects.drop_first();
        assert forall|i: int| 0 <= i < k - 1 implies setting_among(
            #[trigger] rest[i],
            fields,
        ) is None by {
            assert(rest[i] == objects[i + 1]);
        }
        lemma_first_setting(rest, fields, k - 1);
    }
}

/// The credentials of a service account, as its key file holds them.
#[derive(Debug, PartialEq, Eq)]
pub struct ServiceAccountKey {
    pub project_id: String,
    pub client_email: String,
    pub private_key: String,
}

/// The mathematical form of the credentials of a service account.
pub struct ServiceAccountKeyView {
    pub project_id: Seq<char>,
    pub client_email: Seq<char>,
    pub private_key: Seq<char>,
}

impl View for ServiceAccountKey {
    type V = ServiceAccountKeyView;

    open spec fn view(&self) -> ServiceAccountKeyView {
        ServiceAccountKeyView {
            project_id: self.project_id@,
            client_email: self.client_email@,
            private_key: self.private_key@,
        }
    }
}

/// The view of credentials that may be missing.
pub open spec fn key_view(key: Option<ServiceAccountKey>) -> Option<ServiceAccountKeyView> {
    match key {
        Some(key) => Some(key@),
        None => None,
    }
}

/// The names under which a request holds the key file of a service account.
pub open spec fn service_account_fields() -> Seq<Seq<char>> {
    seq!["serviceAccountJson"@, "credentialsJson"@, "serviceAccountKey"@]
}

/// Whether a text is meant as a JSON object: it starts with a brace, after any white space.
pub open spec fn looks_like_object(s: Seq<char>) -> bool {
    let started = crate::text::trimmed_start(s);
    started.len() > 0 && started[0] == '{'
}

/// The key file of a service account that a request holds: under one of its own names, or as a
/// password or private key that looks like a JSON object.
pub open spec fn service_json_of(request: JsonView) -> Option<Seq<char>> {
    match option_of(request, service_account_fields()) {
        Some(found) => Some(found),
        None => match option_of(request, seq!["password"@, "privateKey"@]) {
            Some(found) => if looks_like_object(found) {
                Some(found)
            } else {
                None
            },
            None => None,
        },
    }
}

/// The access token that a request holds, or else the one from the environment.
pub open spec fn explicit_token_of(request: JsonView, from_environment: Option<Seq<char>>) -> Option<
    Seq<char>,
> {
    match option_of(
        request,
        seq!["token"@, "accessToken"@, "oauthAccessToken"@, "bearerToken"@, "password"@],
    ) {
        Some(found) => Some(found),
        None => from_environment,
    }
}

/// The service account to act as, where a request names one.
pub open spec fn impersonation_target_of(request: JsonView) -> Option<Seq<char>> {
    option_of(request, seq!["impersonateServiceAccount"@, "serviceAccountImpersonation"@])
}

/// The service accounts through which to act: a list with commas between them.
pub open spec fn impersonation_delegates_of(request: JsonView) -> Seq<Seq<char>> {
    match option_of(request, seq!["impersonationDelegates"@]) {
        Some(list) => crate::text::nonblank(crate::text::split(list, ',')),
        None => Seq::empty(),
    }
}

/// The project of the key file that a request holds under one of its own names.
pub open spec fn service_json_project_of(
    request: JsonView,
    key: Option<ServiceAccountKeyView>,
) -> Option<Seq<char>> {
    match (option_of(request, service_account_fields()), key) {
        (Some(_), Some(key)) => Some(key.project_id),
        _ => None,
    }
}

fn service_account_setting(request: &Json) -> (found: Option<String>)
    ensures
        owned_text(found) == option_of(request@, service_account_fields()),
{
    let fields: [&str; 3] = ["serviceAccountJson", "credentialsJson", "serviceAccountKey"];
    assert(names(fields@) =~= service_account_fields());
    option_string(request, &fields)
}

/// The key file of a service account that a request holds.
pub fn service_json(request: &Json) -> (found: Option<String>)
    ensures
        owned_text(found) == service_json_of(request@),
{
    let own = service_account_setting(request);
    if own.is_some() {
        return own;
    }
    let fields: [&str; 2] = ["password", "privateKey"];
    assert(names(fields@) =~= seq!["password"@, "privateKey"@]);
    match option_string(request, &fields) {
        Some(found) => {
            let started = crate::text::chars_of(crate::text::trim_start(found.as_str()).as_str());
            if started.len() > 0 && started[0] == '{' {
                Some(found)
            } else {
                None
            }
        },
        None => None,
    }
}

/// The access token that a request holds, or else the one from the environment.
pub fn explicit_token(request: &Json, from_environment: Option<String>) -> (found: Option<String>)
    ensures
        owned_text(found) == explicit_token_of(request@, owned_text(from_environment)),
{
    let fields: [&str; 5] = ["token", "accessToken", "oauthAccessToken", "bearerToken", "password"];
    assert(names(fields@)
        =~= seq!["token"@, "accessToken"@, "oauthAccessToken"@, "bearerToken"@, "password"@]);
    let found = option_string(request, &fields);
    if found.is_some() {
        found
    } else {
        from_environment
    }
}

/// The service account to act as, where a request names one.
pub fn impersonation_target(request: &Json) -> (found: Option<String>)
    ensures
        owned_text(found) == impersonation_target_of(request@),
{
    let fields: [&str; 2] = ["impersonateServiceAccount", "serviceAccountImpersonation"];
    assert(names(fields@) =~= seq!["impersonateServiceAccount"@, "serviceAccountImpersonation"@]);
    option_string(request, &fields)
}

/// The service accounts through which to act.
pub fn impersonation_delegates(request: &Json) -> (out: Vec<String>)
    ensures
        texts(out@) == impersonation_delegates_of(request@),
{
    let fields: [&str; 1] = ["impersonationDelegates"];
    assert(names(fields@) =~= seq!["impersonationDelegates"@]);
    match option_string(request, &fields) {
        Some(list) => crate::text::split_nonblank(list.as_str(), ','),
        None => {
            let out: Vec<String> = Vec::new();
            assert(texts(out@) =~= Seq::<Seq<char>>::empty());
            out
        },
    }
}

/// The project of the key file that a request holds under one of its own names. `key` is what
/// that file was read as, where it could be.
pub fn service_json_project(request: &Json, key: &Option<ServiceAccountKey>) -> (found: Option<
    String,
>)
    ensures
        owned_text(found) == service_json_project_of(request@, key_view(*key)),
{
    if service_account_setting(request).is_none() {
        return None;
    }
    match key {
        Some(key) => Some(key.project_id.clone()),
        None => None,
    }
}

/// How to reach a database: its path, the token to present, and what to mask in messages.
#[derive(Debug, PartialEq, Eq)]
pub struct SpannerConfig {
    pub database_path: String,
    pub access_token: String,
    pub redaction_values: Vec<String>,
}

/// The mathematical form of how to reach a database.
pub struct SpannerConfigView {
    pub database_path: Seq<char>,
    pub access_token: Seq<char>,
    pub redaction_values: Seq<Seq<char>>,
}

impl View for SpannerConfig {
    type V = SpannerConfigView;

    open spec fn view(&self) -> SpannerConfigView {
        SpannerConfigView {
            database_path: self.database_path@,
            access_token: self.access_token@,
            redaction_values: texts(self.redaction_values@),
        }
    }
}

/// The view of a configuration or an error message.
pub open spec fn config_result(out: Result<SpannerConfig, String>) -> Result<
    SpannerConfigView,
    Seq<char>,
> {
    match out {
        Ok(config) => Ok(config@),
        Err(message) => Err(message@),
    }
}

/// The path of a database.
pub open spec fn database_path(project: Seq<char>, instance: Seq<char>, database: Seq<char>) -> Seq<
    char,
> {
    "projects/"@ + project + "/instances/"@ + instance + "/databases/"@ + database
}

/// The project that a request names, or else that of the key file in it.
pub open spec fn project_of(request: JsonView, key: Option<ServiceAccountKeyView>) -> Option<
    Seq<char>,
> {
    match option_of(request, seq!["projectId"@, "project"@]) {
        Some(project) => Some(project),
        None => service_json_project_of(request, key),
    }
}

/// How a request asks to reach a database with a token, or which of its settings is missing.
pub open spec fn config_of(
    request: JsonView,
    key: Option<ServiceAccountKeyView>,
    access_token: Seq<char>,
) -> Result<SpannerConfigView, Seq<char>> {
    match project_of(request, key) {
        None => Err("Cloud Spanner requires projectId."@),
        Some(project) => match option_of(request, seq!["instanceId"@, "instance"@]) {
            None => Err("Cloud Spanner requires instanceId."@),
            Some(instance) => match option_of(request, seq!["databaseId"@, "database"@, "db"@]) {
                None => Err("Cloud Spanner requires databaseId."@),
                Some(database) => Ok(
                    SpannerConfigView {
                        database_path: database_path(project, instance, database),
                        access_token,
                        redaction_values: with_sensitive(Seq::empty(), Some(access_token)),
                    },
                ),
            },
        },
    }
}

impl SpannerConfig {
    /// How a request asks to reach a database with a token. `key` is what the key file in the
    /// request was read as, where it holds one.
    pub fn from_request(
        request: &Json,
        key: &Option<ServiceAccountKey>,
        access_token: String,
    ) -> (out: Result<SpannerConfig, String>)
        ensures
            config_result(out) == config_of(request@, key_view(*key), access_token@),
    {
        let project_fields: [&str; 2] = ["projectId", "project"];
        let instance_fields: [&str; 2] = ["instanceId", "instance"];
        let database_fields: [&str; 3] = ["databaseId", "database", "db"];
        assert(names(project_fields@) =~= seq!["projectId"@, "project"@]);
        assert(names(instance_fields@) =~= seq!["instanceId"@, "instance"@]);
        assert(names(database_fields@) =~= seq!["databaseId"@, "database"@, "db"@]);
        let named = option_string(request, &project_fields);
        let found = if named.is_some() {
            named
        } else {
            service_json_project(request, key)
        };
        let project = match found {
            Some(project) => project,
            None => return Err("Cloud Spanner requires projectId.".to_string()),
        };
        let instance = match option_string(request, &instance_fields) {
            Some(instance) => instance,
            None => return Err("Cloud Spanner requires instanceId.".to_string()),
        };
        let database = match option_string(request, &database_fields) {
            Some(database) => database,
            None => return Err("Cloud Spanner requires databaseId.".to_string()),
        };
        let mut database_path = cat3("projects/", project.as_str(), "/instances/");
        database_path.push_str(instance.as_str());
        database_path.push_str("/databases/");
        database_path.push_str(database.as_str());
        let mut redaction_values: Vec<String> = Vec::new();
        assert(texts(redaction_values@) =~= Seq::<Seq<char>>::empty());
        push_sensitive(&mut redaction_values, Some(access_token.as_str()));
        Ok(SpannerConfig { database_path, access_token, redaction_values })
    }

    /// A message with the values to mask masked.
    pub fn redact(&self, message: &str) -> (out: String)
        ensures
            out@ == redacted(message@, self@.redaction_values),
    {
        redact_all(message, &self.redaction_values)
    }

    /// A copy of this configuration.
    pub fn copy(&self) -> (out: SpannerConfig)
        ensures
            out@ == self@,
    {
        let mut redaction_values: Vec<String> = Vec::new();
        let mut i: usize = 0;
        while i < self.redaction_values.len()
            invariant
                i <= self.redaction_values@.len(),
                texts(redaction_values@) == texts(self.redaction_values@).take(i as int),
            decreases self.redaction_values@.len() - i,
        {
            let ghost was = texts(redaction_values@);
            let value = self.redaction_values[i].clone();
            redaction_values.push(value);
            assert(texts(redaction_values@) =~= was.push(value@));
            i += 1;
        }
        assert(texts(redaction_values@) =~= texts(self.redaction_values@));
        SpannerConfig {
            database_path: self.database_path.clone(),
            access_token: self.access_token.clone(),
            redaction_values,
        }
    }
}

/// The access token of a configuration never comes out in a redacted message, if it stands out
/// from the mask: its trimmed form, which is what is masked, does not occur there.
pub proof fn access_token_is_redacted(
    request: JsonView,
    key: Option<ServiceAccountKeyView>,
    access_token: Seq<char>,
    message: Seq<char>,
)
    requires
        config_of(request, key, access_token) is Ok,
        stands_out(trimmed(access_token), mask()),
    ensures
        ({
            let config = config_of(request, key, access_token)->Ok_0;
            let shown = redacted(message, config.redaction_values);
            &&& !occurs(shown, trimmed(access_token))
            &&& !occurs(shown, access_token)
        }),
{
    let config = config_of(request, key, access_token)->Ok_0;
    let secret = trimmed(access_token);
    let shown = redacted(message, config.redaction_values);
    assert(config.redaction_values =~= seq![secret]);
    redacted_hides_secrets(message, config.redaction_values, 0);
    let at = lemma_trimmed_is_part(access_token);
    assert forall|i: int| !#[trigger] occurs_at(shown, access_token, i) by {
        if occurs_at(shown, access_token, i) {
            assert(shown.skip(i + at).take(secret.len() as int) =~= secret) by {
                assert forall|j: int| 0 <= j < secret.len() implies #[trigger] shown.skip(
                    i + at,
                ).take(secret.len() as int)[j] == secret[j] by {
                    assert(shown.skip(i).take(access_token.len() as int)[at + j]
                        == access_token[at + j]);
                }
            }
            assert(occurs_at(shown, secret, i + at));
        }
    }
}

} // verus!
