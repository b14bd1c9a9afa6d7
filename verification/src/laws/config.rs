//! What holds of the settings in a request.

use vstd::prelude::*;
use crate::config::ServiceAccountKey;
use crate::config::ServiceAccountKeyView;
use crate::config::SpannerConfig;
use crate::config::borrowed_values;
use crate::config::config_of;
use crate::config::config_result;
use crate::config::containers;
use crate::config::explicit_token_of;
use crate::config::first_setting;
use crate::config::impersonation_delegates_of;
use crate::config::impersonation_target_of;
use crate::config::inner;
use crate::config::key_view;
use crate::config::listed;
use crate::config::names;
use crate::config::option_of;
use crate::config::service_json_of;
use crate::config::service_json_project_of;
use crate::config::setting;
use crate::config::setting_among;
use crate::json::Json;
use crate::json::JsonView;
use crate::laws::text::is_blank;
use crate::laws::text::lemma_blank_trims_away;
use crate::text::nonblank;
use crate::text::split;
use crate::text::texts;
use crate::text::trimmed;
use crate::text::trimmed_start;

verus! {

/// Where settings are looked for, in order, each as the way from the request down to it.
pub open spec fn places() -> Seq<Seq<Seq<char>>> {
    seq![
        seq![],
        seq!["profile"@],
        seq!["options"@],
        seq!["auth"@],
        seq!["secrets"@],
        seq!["profile"@, "options"@],
        seq!["profile"@, "auth"@],
        seq!["profile"@, "secrets"@],
    ]
}

/// What stands at the end of a way down from a value.
pub open spec fn at(value: JsonView, way: Seq<Seq<char>>) -> Option<JsonView>
    decreases way.len(),
{
    if way.len() == 0 {
        Some(value)
    } else {
        match value.get(way[0]) {
            Some(next) => at(next, way.drop_first()),
            None => None,
        }
    }
}

/// What a value says as a setting, before it is trimmed; nothing but texts, numbers and truth
/// values says anything.
pub open spec fn said(value: JsonView) -> Option<Seq<char>> {
    match value {
        JsonView::Text(s) => Some(s),
        JsonView::Number(n) => Some(n),
        JsonView::Bool(true) => Some("true"@),
        JsonView::Bool(false) => Some("false"@),
        _ => None,
    }
}

/// The setting of one name at one place: what stands there, trimmed, unless it is blank.
pub open spec fn setting_at(request: JsonView, place: Seq<Seq<char>>, name: Seq<char>) -> Option<
    Seq<char>,
> {
    match at(request, place.push(name)) {
        Some(value) => match said(value) {
            Some(s) => if is_blank(s) {
                None
            } else {
                Some(trimmed(s))
            },
            None => None,
        },
        None => None,
    }
}

/// The first place that has a setting decides, and at that place the first name that has one: the
/// setting is then the one there, and nothing behind it matters.
pub proof fn settings_are_found_place_by_place(
    request: JsonView,
    fields: Seq<Seq<char>>,
    k: int,
    j: int,
)
    requires
        0 <= k < places().len(),
        0 <= j < fields.len(),
        setting_at(request, places()[k], fields[j]) is Some,
        forall|i: int|
            0 <= i < j ==> setting_at(request, places()[k], #[trigger] fields[i]) is None,
        forall|p: int, i: int|
            0 <= p < k && 0 <= i < fields.len() ==> setting_at(
                request,
                #[trigger] places()[p],
                #[trigger] fields[i],
            ) is None,
    ensures
        option_of(request, fields) == setting_at(request, places()[k], fields[j]),
{
    lemma_option_by_place(request, fields);
    assert forall|p: int| 0 <= p < k implies #[trigger] among_at(request, p, fields) is None by {
        lemma_none_among(request, p, fields);
    }
    lemma_some_among(request, k, fields, j);
    assert(among_at(request, k, fields) is Some);
    lemma_among_first(request, k, 7, fields);
}

/// Where no place has a setting under any of the names, it is missing.
pub proof fn settings_are_missing_where_no_place_has_one(request: JsonView, fields: Seq<Seq<char>>)
    requires
        forall|p: int, i: int|
            0 <= p < places().len() && 0 <= i < fields.len() ==> setting_at(
                request,
                #[trigger] places()[p],
                #[trigger] fields[i],
            ) is None,
    ensures
        option_of(request, fields) is None,
{
    lemma_option_by_place(request, fields);
    assert forall|p: int| 0 <= p < places().len() implies #[trigger] among_at(
        request,
        p,
        fields,
    ) is None by {
        lemma_none_among(request, p, fields);
    }
    lemma_among_first(request, 8, 7, fields);
}

/// The setting that the object at a place has under one of the names.
spec fn among_at(request: JsonView, p: int, fields: Seq<Seq<char>>) -> Option<Seq<char>> {
    match at(request, places()[p]) {
        Some(object) => setting_among(object, fields),
        None => None,
    }
}

spec fn or_else(a: Option<Seq<char>>, b: Option<Seq<char>>) -> Option<Seq<char>> {
    match a {
        Some(s) => Some(s),
        None => b,
    }
}

proof fn lemma_first_setting_concat(a: Seq<JsonView>, b: Seq<JsonView>, fields: Seq<Seq<char>>)
    ensures
        first_setting(a + b, fields) == or_else(first_setting(a, fields), first_setting(b, fields)),
    decreases a.len(),
{
    if a.len() == 0 {
        assert(a + b =~= b);
    } else {
        lemma_first_setting_concat(a.drop_first(), b, fields);
        assert((a + b).drop_first() =~= a.drop_first() + b);
    }
}

proof fn lemma_first_setting_listed(value: Option<JsonView>, fields: Seq<Seq<char>>)
    ensures
        first_setting(listed(value), fields) == match value {
            Some(object) => setting_among(object, fields),
            None => None,
        },
{
    if let Some(object) = value {
        assert(listed(value).drop_first() =~= Seq::<JsonView>::empty());
        assert(first_setting(listed(value).drop_first(), fields) is None);
    }
}

proof fn lemma_ways(request: JsonView)
    ensures
        at(request, places()[0]) == Some(request),
        at(request, places()[1]) == request.get("profile"@),
        at(request, places()[2]) == request.get("options"@),
        at(request, places()[3]) == request.get("auth"@),
        at(request, places()[4]) == request.get("secrets"@),
        at(request, places()[5]) == inner(request.get("profile"@), "options"@),
        at(request, places()[6]) == inner(request.get("profile"@), "auth"@),
        at(request, places()[7]) == inner(request.get("profile"@), "secrets"@),
{
    lemma_way_one(request, "profile"@);
    lemma_way_one(request, "options"@);
    lemma_way_one(request, "auth"@);
    lemma_way_one(request, "secrets"@);
    lemma_way_two(request, "profile"@, "options"@);
    lemma_way_two(request, "profile"@, "auth"@);
    lemma_way_two(request, "profile"@, "secrets"@);
}

proof fn lemma_way_one(value: JsonView, a: Seq<char>)
    ensures
        at(value, seq![a]) == value.get(a),
{
    reveal_with_fuel(at, 2);
    assert(seq![a].drop_first() =~= Seq::<Seq<char>>::empty());
}

proof fn lemma_way_two(value: JsonView, a: Seq<char>, b: Seq<char>)
    ensures
        at(value, seq![a, b]) == inner(value.get(a), b),
{
    assert(seq![a, b].drop_first() =~= seq![b]);
    if let Some(next) = value.get(a) {
        lemma_way_one(next, b);
    }
}

proof fn lemma_way_on(value: JsonView, way: Seq<Seq<char>>, name: Seq<char>)
    ensures
        at(value, way.push(name)) == match at(value, way) {
            Some(object) => object.get(name),
            None => None,
        },
    decreases way.len(),
{
    if way.len() == 0 {
        assert(way.push(name) =~= seq![name]);
        lemma_way_one(value, name);
    } else {
        assert(way.push(name).drop_first() =~= way.drop_first().push(name));
        if let Some(next) = value.get(way[0]) {
            lemma_way_on(next, way.drop_first(), name);
        }
    }
}

/// The setting that the first places have, up to one of them.
spec fn among_first(request: JsonView, p: int, fields: Seq<Seq<char>>) -> Option<Seq<char>>
    decreases p + 1,
{
    if p < 0 {
        None
    } else {
        or_else(among_first(request, p - 1, fields), among_at(request, p, fields))
    }
}

proof fn lemma_option_by_place(request: JsonView, fields: Seq<Seq<char>>)
    ensures
        option_of(request, fields) == among_first(request, 7, fields),
{
    lemma_ways(request);
    let profile = request.get("profile"@);
    let l0 = seq![request];
    let l1 = l0 + listed(profile);
    let l2 = l1 + listed(request.get("options"@));
    let l3 = l2 + listed(request.get("auth"@));
    let l4 = l3 + listed(request.get("secrets"@));
    let l5 = l4 + listed(inner(profile, "options"@));
    let l6 = l5 + listed(inner(profile, "auth"@));
    let l7 = l6 + listed(inner(profile, "secrets"@));
    assert(containers(request) == l7);
    lemma_first_setting_listed(Some(request), fields);
    assert(l0 == listed(Some(request)));
    assert(first_setting(l0, fields) == among_first(request, 0, fields)) by {
        reveal_with_fuel(among_first, 2);
    }
    lemma_one_more_place(request, l0, 1, fields);
    lemma_one_more_place(request, l1, 2, fields);
    lemma_one_more_place(request, l2, 3, fields);
    lemma_one_more_place(request, l3, 4, fields);
    lemma_one_more_place(request, l4, 5, fields);
    lemma_one_more_place(request, l5, 6, fields);
    lemma_one_more_place(request, l6, 7, fields);
}

proof fn lemma_one_more_place(
    request: JsonView,
    objects: Seq<JsonView>,
    p: int,
    fields: Seq<Seq<char>>,
)
    requires
        0 < p,
        first_setting(objects, fields) == among_first(request, p - 1, fields),
    ensures
        first_setting(objects + listed(at(request, places()[p])), fields) == among_first(
            request,
            p,
            fields,
        ),
{
    lemma_first_setting_concat(objects, listed(at(request, places()[p])), fields);
    lemma_first_setting_listed(at(request, places()[p]), fields);
}

proof fn lemma_among_first(request: JsonView, k: int, p: int, fields: Seq<Seq<char>>)
    requires
        forall|i: int| 0 <= i < k && i <= p ==> #[trigger] among_at(request, i, fields) is None,
        0 <= k <= p ==> among_at(request, k, fields) is Some,
        0 <= k,
    ensures
        k <= p ==> among_first(request, p, fields) == among_at(request, k, fields),
        p < k ==> among_first(request, p, fields) is None,
    decreases p + 1,
{
    if p >= 0 {
        lemma_among_first(request, k, p - 1, fields);
    }
}

proof fn lemma_setting_at(request: JsonView, p: int, name: Seq<char>)
    requires
        0 <= p < places().len(),
    ensures
        setting_at(request, places()[p], name) == match at(request, places()[p]) {
            Some(object) => setting(object, name),
            None => None,
        },
{
    lemma_way_on(request, places()[p], name);
    if let Some(value) = at(request, places()[p].push(name)) {
        if let Some(s) = said(value) {
            lemma_blank_trims_away(s);
        }
        lemma_blank_trims_away(Seq::empty());
    }
}

proof fn lemma_none_among(request: JsonView, p: int, fields: Seq<Seq<char>>)
    requires
        0 <= p < places().len(),
        forall|i: int|
            0 <= i < fields.len() ==> setting_at(
                request,
                places()[p],
                #[trigger] fields[i],
            ) is None,
    ensures
        among_at(request, p, fields) is None,
    decreases fields.len(),
{
    if fields.len() > 0 {
        let rest = fields.drop_first();
        assert forall|i: int| 0 <= i < rest.len() implies setting_at(
            request,
            places()[p],
            #[trigger] rest[i],
        ) is None by {
            assert(rest[i] == fields[i + 1]);
        }
        lemma_none_among(request, p, rest);
        lemma_setting_at(request, p, fields[0]);
        assert(setting_at(request, places()[p], fields[0]) is None);
    }
}

proof fn lemma_some_among(request: JsonView, p: int, fields: Seq<Seq<char>>, j: int)
    requires
        0 <= p < places().len(),
        0 <= j < fields.len(),
        setting_at(request, places()[p], fields[j]) is Some,
        forall|i: int|
            0 <= i < j ==> setting_at(request, places()[p], #[trigger] fields[i]) is None,
    ensures
        among_at(request, p, fields) == setting_at(request, places()[p], fields[j]),
    decreases j,
{
    lemma_setting_at(request, p, fields[0]);
    if j > 0 {
        let rest = fields.drop_first();
        assert forall|i: int| 0 <= i < j - 1 implies setting_at(
            request,
            places()[p],
            #[trigger] rest[i],
        ) is None by {
            assert(rest[i] == fields[i + 1]);
        }
        lemma_some_among(request, p, rest, j - 1);
        assert(setting_at(request, places()[p], fields[0]) is None);
    }
}

/// The project that a request names counts, whatever key it holds: the path of the database begins
/// with it, and with another key it is the same path.
pub proof fn a_named_project_counts_before_the_key(
    request: JsonView,
    key: Option<ServiceAccountKeyView>,
    other: Option<ServiceAccountKeyView>,
    access_token: Seq<char>,
    project: Seq<char>,
)
    requires
        option_of(request, seq!["projectId"@, "project"@]) == Some(project),
    ensures
        config_of(request, key, access_token) == config_of(request, other, access_token),
        config_of(request, key, access_token) matches Ok(config) ==> ("projects/"@ + project
            + "/instances/"@).is_prefix_of(config.database_path),
{
    if let Ok(config) = config_of(request, key, access_token) {
        let front = "projects/"@ + project + "/instances/"@;
        assert(config.database_path.subrange(0, front.len() as int) =~= front);
    }
}

/// Where a request names no project, that of the key counts, if the key stands under one of its
/// own names; otherwise there is none, and that is what is said.
pub proof fn the_key_names_the_project_where_the_request_does_not(
    request: JsonView,
    key: Option<ServiceAccountKeyView>,
    access_token: Seq<char>,
)
    requires
        option_of(request, seq!["projectId"@, "project"@]) is None,
    ensures
        ({
            let own = option_of(
                request,
                seq!["serviceAccountJson"@, "credentialsJson"@, "serviceAccountKey"@],
            );
            let config = config_of(request, key, access_token);
            &&& own is Some && key is Some ==> (config matches Ok(found) ==> ("projects/"@
                + key->0.project_id + "/instances/"@).is_prefix_of(found.database_path))
            &&& own is None || key is None ==> config is Err && config->Err_0
                == "Cloud Spanner requires projectId."@
        }),
{
    if let Ok(config) = config_of(request, key, access_token) {
        let front = "projects/"@ + key->0.project_id + "/instances/"@;
        assert(config.database_path.subrange(0, front.len() as int) =~= front);
    }
}

/// The path of a database is made of the three settings that were asked for, and of nothing else.
pub proof fn databases_are_the_ones_asked_for(
    request: JsonView,
    key: Option<ServiceAccountKeyView>,
    access_token: Seq<char>,
    instance: Seq<char>,
    database: Seq<char>,
)
    requires
        option_of(request, seq!["instanceId"@, "instance"@]) == Some(instance),
        option_of(request, seq!["databaseId"@, "database"@, "db"@]) == Some(database),
        config_of(request, key, access_token) is Ok,
    ensures
        ({
            let path = config_of(request, key, access_token)->Ok_0.database_path;
            let back = "/instances/"@ + instance + "/databases/"@ + database;
            let project = match option_of(request, seq!["projectId"@, "project"@]) {
                Some(project) => project,
                None => key->0.project_id,
            };
            &&& back.is_suffix_of(path)
            &&& path.len() == "projects/"@.len() + project.len() + back.len()
            &&& ("projects/"@ + project).is_prefix_of(path)
        }),
{
    let path = config_of(request, key, access_token)->Ok_0.database_path;
    let back = "/instances/"@ + instance + "/databases/"@ + database;
    let project = match option_of(request, seq!["projectId"@, "project"@]) {
        Some(project) => project,
        None => key->0.project_id,
    };
    let front = "projects/"@ + project;
    assert(path =~= front + back);
    assert(path.subrange(0, front.len() as int) =~= front);
    assert(path.subrange(path.len() - back.len(), path.len() as int) =~= back);
}

/// A configuration comes about exactly where the project, the instance and the database are there;
/// the first of them that is missing is named. It keeps the token as it is and masks its trimmed
/// form.
pub proof fn configurations_need_three_settings(
    request: JsonView,
    key: Option<ServiceAccountKeyView>,
    access_token: Seq<char>,
)
    ensures
        ({
            let config = config_of(request, key, access_token);
            let own = option_of(
                request,
                seq!["serviceAccountJson"@, "credentialsJson"@, "serviceAccountKey"@],
            );
            let project = option_of(request, seq!["projectId"@, "project"@]) is Some || own is Some
                && key is Some;
            let instance = option_of(request, seq!["instanceId"@, "instance"@]) is Some;
            let database = option_of(request, seq!["databaseId"@, "database"@, "db"@]) is Some;
            &&& config is Ok <==> project && instance && database
            &&& !project ==> config->Err_0 == "Cloud Spanner requires projectId."@
            &&& project && !instance ==> config->Err_0 == "Cloud Spanner requires instanceId."@
            &&& project && instance && !database ==> config->Err_0
                == "Cloud Spanner requires databaseId."@
            &&& config matches Ok(found) ==> found.access_token == access_token
            &&& config matches Ok(found) ==> trimmed(access_token).len() > 0
                ==> found.redaction_values == seq![trimmed(access_token)]
            &&& config matches Ok(found) ==> trimmed(access_token).len() == 0
                ==> found.redaction_values.len() == 0
        }),
{
    assert(Seq::<Seq<char>>::empty().push(trimmed(access_token)) =~= seq![trimmed(access_token)]);
}

/// The key of a service account is what stands under one of its own names; a password or a private
/// key is one only where it begins with a brace.
pub proof fn keys_are_told_from_passwords(request: JsonView, key: Seq<char>)
    ensures
        ({
            let own = option_of(
                request,
                seq!["serviceAccountJson"@, "credentialsJson"@, "serviceAccountKey"@],
            );
            let other = option_of(request, seq!["password"@, "privateKey"@]);
            &&& own is Some ==> service_json_of(request) == own
            &&& own is None && other is None ==> service_json_of(request) is None
            &&& own is None && other == Some(key) ==> (service_json_of(request) == Some(key) <==> ({
                &&& trimmed_start(key).len() > 0
                &&& trimmed_start(key)[0] == '{'
            }))
            &&& service_json_of(request) is Some ==> service_json_of(request) == own
                || service_json_of(request) == other
        }),
{
}

/// The token is the one in the request, under any of its five names, and that of the environment
/// only where the request has none.
pub proof fn tokens_in_the_request_come_first(request: JsonView, from_environment: Option<Seq<char>>)
    ensures
        ({
            let own = option_of(
                request,
                seq!["token"@, "accessToken"@, "oauthAccessToken"@, "bearerToken"@, "password"@],
            );
            &&& own is Some ==> explicit_token_of(request, from_environment) == own
            &&& own is None ==> explicit_token_of(request, from_environment) == from_environment
        }),
{
}

/// The account to act as is the setting of that name, as it is; the accounts through which to act
/// are the nonblank parts of their list, trimmed and in order.
pub proof fn impersonation_is_as_asked_for(request: JsonView)
    ensures
        impersonation_target_of(request) == option_of(
            request,
            seq!["impersonateServiceAccount"@, "serviceAccountImpersonation"@],
        ),
        option_of(request, seq!["impersonationDelegates"@]) is None ==> impersonation_delegates_of(
            request,
        ).len() == 0,
        option_of(request, seq!["impersonationDelegates"@]) matches Some(list)
            ==> impersonation_delegates_of(request) == nonblank(split(list, ',')),
{
}

/// The project of a key counts exactly where the key stands under one of its own names.
pub proof fn keys_name_their_project(request: JsonView, key: Option<ServiceAccountKeyView>)
    ensures
        ({
            let own = option_of(
                request,
                seq!["serviceAccountJson"@, "credentialsJson"@, "serviceAccountKey"@],
            );
            &&& own is Some && key is Some ==> service_json_project_of(request, key) == Some(
                key->0.project_id,
            )
            &&& own is None || key is None ==> service_json_project_of(request, key) is None
        }),
{
}

/// The views of settings leave nothing out.
pub proof fn settings_are_viewed_whole(
    list: Seq<&str>,
    objects: Seq<&Json>,
    key: ServiceAccountKey,
    config: SpannerConfig,
    out: Result<SpannerConfig, String>,
)
    ensures
        names(list).len() == list.len(),
        forall|i: int| 0 <= i < list.len() ==> #[trigger] names(list)[i] == list[i]@,
        borrowed_values(objects).len() == objects.len(),
        forall|i: int|
            0 <= i < objects.len() ==> #[trigger] borrowed_values(objects)[i] == objects[i]@,
        key@.project_id == key.project_id@,
        key@.client_email == key.client_email@,
        key@.private_key == key.private_key@,
        key_view(Some(key)) == Some(key@),
        key_view(None) is None,
        config@.database_path == config.database_path@,
        config@.access_token == config.access_token@,
        config@.redaction_values == texts(config.redaction_values@),
        out matches Ok(found) ==> (config_result(out) matches Ok(view) && view == found@),
        out matches Err(s) ==> (config_result(out) matches Err(message) && message == s@),
{
}

/// What stands at the first places, where there is anything.
pub open spec fn present(request: JsonView, p: int) -> Seq<JsonView>
    decreases p,
{
    if p <= 0 {
        Seq::empty()
    } else {
        match at(request, places()[p - 1]) {
            Some(object) => present(request, p - 1).push(object),
            None => present(request, p - 1),
        }
    }
}

/// The containers of a request are what stands at the eight places, in order, each once.
pub proof fn containers_are_what_stands_at_the_places(request: JsonView)
    ensures
        containers(request) == present(request, 8),
{
    lemma_ways(request);
    let profile = request.get("profile"@);
    let l1 = seq![request] + listed(profile);
    let l2 = l1 + listed(request.get("options"@));
    let l3 = l2 + listed(request.get("auth"@));
    let l4 = l3 + listed(request.get("secrets"@));
    let l5 = l4 + listed(inner(profile, "options"@));
    let l6 = l5 + listed(inner(profile, "auth"@));
    assert(present(request, 1) =~= seq![request]) by {
        reveal_with_fuel(present, 2);
    }
    lemma_present(request, seq![request], 1);
    lemma_present(request, l1, 2);
    lemma_present(request, l2, 3);
    lemma_present(request, l3, 4);
    lemma_present(request, l4, 5);
    lemma_present(request, l5, 6);
    lemma_present(request, l6, 7);
}

proof fn lemma_present(request: JsonView, objects: Seq<JsonView>, p: int)
    requires
        0 < p,
        objects == present(request, p),
    ensures
        objects + listed(at(request, places()[p])) == present(request, p + 1),
{
    assert(objects + listed(at(request, places()[p])) =~= present(request, p + 1));
}

} // verus!
