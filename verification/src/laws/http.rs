//! What holds of JSON values, requests and replies.

use vstd::prelude::*;
use crate::http::Body;
use crate::http::BodyView;
use crate::http::HttpReply;
use crate::http::HttpReplyView;
use crate::http::HttpRequest;
use crate::http::code_text;
use crate::http::is_success;
use crate::http::json_outcome;
use crate::http::reason_phrase;
use crate::http::request_json_outcome;
use crate::http::request_text_outcome;
use crate::json::Json;
use crate::json::JsonView;
use crate::json::borrowed_json;
use crate::json::json_document;
use crate::json::json_result;
use crate::json::members;
use crate::json::read_value;
use crate::json::value_content;
use crate::text::decimal;
use crate::text::owned_text;

verus! {

/// A field of an object is the first one with that name, and there is none exactly where no field
/// has the name. Nothing but an object has fields.
pub proof fn fields_are_found_by_name(fields: Seq<(Seq<char>, JsonView)>, key: Seq<char>, k: int)
    requires
        0 <= k <= fields.len(),
        forall|i: int| 0 <= i < k ==> (#[trigger] fields[i]).0 != key,
        k < fields.len() ==> fields[k].0 == key,
    ensures
        k < fields.len() ==> JsonView::Object(fields).get(key) == Some(fields[k].1),
        k == fields.len() ==> JsonView::Object(fields).get(key) is None,
    decreases k,
{
    if k > 0 {
        let rest = fields.drop_first();
        assert(fields[0].0 != key);
        assert forall|i: int| 0 <= i < k - 1 implies (#[trigger] rest[i]).0 != key by {
            assert(rest[i] == fields[i + 1]);
        }
        fields_are_found_by_name(rest, key, k - 1);
    }
}

/// Nothing but an object has fields, and only a text is one.
pub proof fn other_values_have_no_fields(value: JsonView, key: Seq<char>, s: Seq<char>)
    ensures
        !(value is Object) ==> value.get(key) is None,
        value.as_str() == Some(s) <==> value == JsonView::Text(s),
        value.text_field(key) == Some(s) <==> value.get(key) == Some(JsonView::Text(s)),
{
}

/// The view of a JSON value is that value.
pub proof fn json_is_viewed_whole(
    b: bool,
    s: String,
    items: Vec<Json>,
    fields: Vec<(String, Json)>,
    found: Option<&Json>,
    out: Result<Json, String>,
)
    ensures
        Json::Null@ == JsonView::Null,
        Json::Bool(b)@ == JsonView::Bool(b),
        Json::Number(s)@ == JsonView::Number(s@),
        Json::Text(s)@ == JsonView::Text(s@),
        Json::Array(items)@ matches JsonView::Array(list) && list.len() == items@.len(),
        Json::Array(items)@ matches JsonView::Array(list) ==> forall|i: int|
            0 <= i < list.len() ==> #[trigger] list[i] == items@[i]@,
        Json::Object(fields)@ matches JsonView::Object(list) && list.len() == fields@.len(),
        Json::Object(fields)@ matches JsonView::Object(list) ==> forall|i: int|
            0 <= i < list.len() ==> #[trigger] list[i] == (fields@[i].0@, fields@[i].1@),
        members(fields@).len() == fields@.len(),
        forall|i: int|
            0 <= i < fields@.len() ==> #[trigger] members(fields@)[i] == (
                fields@[i].0@,
                fields@[i].1@,
            ),
        found is Some <==> borrowed_json(found) is Some,
        found matches Some(value) ==> borrowed_json(found) == Some(value@),
        out matches Ok(value) ==> json_result(out) == Ok::<JsonView, Seq<char>>(value@),
        out matches Err(message) ==> json_result(out) == Err::<JsonView, Seq<char>>(message@),
{
    crate::json::lemma_array_view(items);
    crate::json::lemma_object_view(fields);
}

/// A text is read as the value that it stands for, or refused with the message of the reader.
pub proof fn documents_are_what_was_read(text: Seq<char>)
    ensures
        read_value(text) matches Ok(value) ==> json_document(text) == Ok::<JsonView, Seq<char>>(
            value_content(value),
        ),
        read_value(text) matches Err(message) ==> json_document(text) == Err::<
            JsonView,
            Seq<char>,
        >(message),
{
}

/// An answer of Cloud Spanner counts exactly where its status is from 200 to 299, and is then
/// taken as it is. A failure tells the status, its reason and the whole text of the answer.
pub proof fn answers_count_by_their_status(code: u16, text: Seq<char>)
    ensures
        is_success(code) <==> 200 <= code && code < 300,
        200 <= code < 300 ==> request_text_outcome(HttpReplyView::Answered(code, text)) == Ok::<
            Seq<char>,
            Seq<char>,
        >(text),
        !(200 <= code < 300) ==> request_text_outcome(HttpReplyView::Answered(code, text)) == Err::<
            Seq<char>,
            Seq<char>,
        >(
            "Cloud Spanner returned HTTP "@ + decimal(code as nat) + " "@ + reason_phrase(code)
                + ": "@ + text,
        ),
        code_text(code) == decimal(code as nat) + " "@ + reason_phrase(code),
{
    assert("Cloud Spanner returned HTTP "@ + code_text(code) + ": "@ + text
        =~= "Cloud Spanner returned HTTP "@ + decimal(code as nat) + " "@ + reason_phrase(code)
        + ": "@ + text);
}

/// A request that did not come through fails with the reason for it, whatever the reason.
pub proof fn lost_requests_fail_with_their_reason(code: u16, message: Seq<char>)
    ensures
        request_text_outcome(HttpReplyView::Unsent(message)) == Err::<Seq<char>, Seq<char>>(
            "Cloud Spanner request failed: "@ + message,
        ),
        request_text_outcome(HttpReplyView::Unread(code, message)) == Err::<Seq<char>, Seq<char>>(
            "Cloud Spanner response read failed: "@ + message,
        ),
        request_json_outcome(HttpReplyView::Unsent(message)) is Err,
        request_json_outcome(HttpReplyView::Unread(code, message)) is Err,
{
}

/// The value of an answer is what its whole text is read as; there is one exactly where the answer
/// counts and the text can be read.
pub proof fn values_come_from_the_whole_text(code: u16, text: Seq<char>, value: JsonView)
    ensures
        request_json_outcome(HttpReplyView::Answered(code, text)) == Ok::<JsonView, Seq<char>>(
            value,
        ) <==> 200 <= code < 300 && json_document(text) == Ok::<JsonView, Seq<char>>(value),
        json_document(text) matches Err(message) ==> 200 <= code < 300 ==> request_json_outcome(
            HttpReplyView::Answered(code, text),
        ) == Err::<JsonView, Seq<char>>(
            "Cloud Spanner JSON response parse failed: "@ + message + ": "@ + text,
        ),
        json_outcome(text, Ok(value)) == Ok::<JsonView, Seq<char>>(value),
{
}

/// Whatever went wrong with the text of an answer went wrong with its value too.
pub proof fn failed_texts_have_no_value(reply: HttpReplyView)
    ensures
        request_text_outcome(reply) matches Err(message) ==> request_json_outcome(reply) == Err::<
            JsonView,
            Seq<char>,
        >(message),
{
}

/// The view of a request leaves nothing out.
pub proof fn requests_are_viewed_whole(request: HttpRequest, text: String, value: Json)
    ensures
        request@.method == request.method,
        request@.url == request.url@,
        request@.bearer == owned_text(request.bearer),
        request.header is Some <==> request@.header is Some,
        request.header matches Some((name, content)) ==> request@.header == Some(
            (name@, content@),
        ),
        request@.body == request.body@,
        Body::Empty@ == BodyView::Empty,
        Body::Text(text)@ == BodyView::Text(text@),
        Body::Json(value)@ == BodyView::Json(value@),
{
}

/// The view of a reply leaves nothing out.
pub proof fn replies_are_viewed_whole(reply: HttpReply)
    ensures
        reply matches HttpReply::Unsent(message) ==> reply@ == HttpReplyView::Unsent(message@),
        reply matches HttpReply::Unread(status, message) ==> reply@ == HttpReplyView::Unread(
            status.number(),
            message@,
        ),
        reply matches HttpReply::Answered(status, text) ==> reply@ == HttpReplyView::Answered(
            status.number(),
            text@,
        ),
{
}

/// A value that was read stays as it is, and a text that could not be read is told whole, with the
/// reason in front of it.
pub proof fn unreadable_texts_are_told_whole(
    text: Seq<char>,
    message: Seq<char>,
    value: JsonView,
)
    ensures
        json_outcome(text, Ok(value)) == Ok::<JsonView, Seq<char>>(value),
        ({
            let front = "Cloud Spanner JSON response parse failed: "@ + message + ": "@;
            &&& json_outcome(text, Err(message)) matches Err(shown)
            &&& front.is_prefix_of(shown)
            &&& shown.skip(front.len() as int) == text
        }),
{
    let front = "Cloud Spanner JSON response parse failed: "@ + message + ": "@;
    let shown = front + text;
    assert(shown.subrange(0, front.len() as int) =~= front);
    assert(shown.skip(front.len() as int) =~= text);
}

} // verus!
