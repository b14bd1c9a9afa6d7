use cloud_spanner::redaction::{push_sensitive, redact_all, replace};

fn owned(list: &[&str]) -> Vec<String> {
    list.iter().map(|s| s.to_string()).collect()
}

#[test]
fn replacing_agrees_with_std() {
    for (s, pattern) in [
        ("", "a"),
        ("aaa", "a"),
        ("aaaaa", "aa"),
        ("abab", "ab"),
        ("xaby", "ab"),
        ("aab", "ab"),
        ("日本語日本", "日本"),
        ("short", "longer than that"),
    ] {
        assert_eq!(replace(s, pattern, "****"), s.replace(pattern, "****"));
        assert_eq!(replace(s, pattern, ""), s.replace(pattern, ""));
    }
}

#[test]
fn every_secret_is_masked() {
    let secrets = owned(&["tok-1", "", "tok-2"]);
    assert_eq!(
        redact_all("tok-1 and tok-2 and tok-1", &secrets),
        "**** and **** and ****"
    );
    assert_eq!(redact_all("tok-tok-11", &secrets), "tok-****1");
}

#[test]
fn a_message_without_secrets_stays_as_it_is() {
    assert_eq!(redact_all("nothing here", &owned(&["secret"])), "nothing here");
    assert_eq!(redact_all("nothing here", &owned(&[])), "nothing here");
    assert_eq!(redact_all("nothing here", &owned(&["", "secret", ""])), "nothing here");
}

#[test]
fn secrets_with_stars_inside_are_hidden_too() {
    let secrets = owned(&["a*b"]);
    let shown = redact_all("aa*bb a*b", &secrets);
    assert_eq!(shown, "a****b ****");
    assert!(!shown.contains("a*b"));
}

#[test]
fn sensitive_values_are_trimmed_and_kept_once() {
    let mut values = Vec::new();
    push_sensitive(&mut values, None);
    push_sensitive(&mut values, Some(" \t"));
    assert!(values.is_empty());
    push_sensitive(&mut values, Some(" token "));
    push_sensitive(&mut values, Some("token"));
    push_sensitive(&mut values, Some("other"));
    assert_eq!(values, vec!["token", "other"]);
}
