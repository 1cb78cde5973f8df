use vocab_api::quiz::{question_request_body, request_body_from, user_prompt};

#[test]
fn prompt_names_the_word() {
    assert_eq!(user_prompt("hus"), "The word is 'hus'");
}

#[test]
fn request_body_quotes_and_escapes_the_prompt() {
    let body = question_request_body("h\"us");
    assert!(body.contains(r#""text": "The word is 'h\"us'""#));
    assert!(body.starts_with("{"));
    assert!(body.ends_with("}"));
    assert!(body.contains("\"json_schema\""));
}

#[test]
fn request_body_escapes_control_characters() {
    let body = question_request_body("a\\b\n\u{1}");
    assert!(body.contains(r#""text": "The word is 'a\\b\n\u0001'""#));
}

#[test]
fn request_body_wraps_given_text() {
    let body = request_body_from("\"x\"");
    assert!(body.contains("\"text\": \"x\"\n"));
}
