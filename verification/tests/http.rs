use cloud_spanner::http::{explain_json, request_json, request_text, HttpReply, Status};
use cloud_spanner::json::{member, text, Json};

fn status(code: u16) -> Status {
    Status::new(code).expect("a status")
}

fn answered(code: u16, body: &str) -> HttpReply {
    HttpReply::Answered(status(code), body.to_string())
}

#[test]
fn a_status_has_three_digits() {
    for code in [0, 99, 1000, u16::MAX] {
        assert!(Status::new(code).is_none());
    }
    for code in [100, 999] {
        assert!(Status::new(code).is_some());
    }
}

#[test]
fn the_two_hundreds_are_successes() {
    for code in 100..=999 {
        assert_eq!(status(code).is_success(), (200..300).contains(&code));
    }
}

#[test]
fn a_status_is_described_with_its_reason() {
    assert_eq!(status(200).describe(), "200 OK");
    assert_eq!(status(404).describe(), "404 Not Found");
    assert_eq!(status(299).describe(), "299 <unknown status code>");
}

#[test]
fn the_text_of_a_successful_answer_is_taken() {
    assert_eq!(request_text(answered(204, "")), Ok(String::new()));
    assert_eq!(request_text(answered(200, "body")), Ok("body".to_string()));
}

#[test]
fn each_way_to_fail_is_told_apart() {
    assert_eq!(
        request_text(HttpReply::Unsent("no route".to_string())),
        Err("Cloud Spanner request failed: no route".to_string())
    );
    assert_eq!(
        request_text(HttpReply::Unread(status(200), "cut off".to_string())),
        Err("Cloud Spanner response read failed: cut off".to_string())
    );
    assert_eq!(
        request_text(answered(403, "denied")),
        Err("Cloud Spanner returned HTTP 403 Forbidden: denied".to_string())
    );
}

#[test]
fn the_json_of_a_successful_answer_is_taken() {
    assert_eq!(
        request_json(answered(200, r#"{"name":"s"}"#)),
        Ok(Json::Object(vec![member("name", text("s"))]))
    );
    assert_eq!(
        request_json(answered(200, "<html>")),
        Err(
            "Cloud Spanner JSON response parse failed: expected value at line 1 column 1: <html>"
                .to_string()
        )
    );
    assert_eq!(
        request_json(answered(500, "{}")),
        Err("Cloud Spanner returned HTTP 500 Internal Server Error: {}".to_string())
    );
    assert_eq!(
        explain_json("source", Err("why".to_string())),
        Err("Cloud Spanner JSON response parse failed: why: source".to_string())
    );
    assert_eq!(explain_json("source", Ok(Json::Null)), Ok(Json::Null));
}
