use deepseek_client::error::{classify_failure, decode_reply, ApiErrorEnvelope, DeepSeekError};
use deepseek_client::json::{parse_document, parse_u32};
use deepseek_client::models::{ChatCompletionResponse, Choice, MessageOut, Role, Usage};

fn status_kind(status: u16, body: &str) -> DeepSeekError {
    match decode_reply(status, body.to_string()) {
        Err(e) => e,
        Ok(_) => panic!("expected an error"),
    }
}

#[test]
fn scenario_success_reply() {
    let body = r#"{"id":"x","choices":[{"index":0,"message":{"role":"assistant","content":"Hej!"}}]}"#;
    let resp = decode_reply(200, body.to_string()).unwrap();
    assert_eq!(resp.id, "x");
    assert_eq!(resp.choices.len(), 1);
    assert_eq!(resp.choices[0].index, 0);
    assert_eq!(resp.choices[0].message.role, Role::Assistant);
    assert_eq!(resp.choices[0].message.content.as_deref(), Some("Hej!"));
    assert_eq!(resp.usage, None);
}

#[test]
fn scenario_insufficient_balance() {
    let e = status_kind(402, r#"{"error":{"message":"Insufficient Balance"}}"#);
    assert!(matches!(e, DeepSeekError::InsufficientBalance));
}

#[test]
fn status_table() {
    assert!(matches!(status_kind(401, "x"), DeepSeekError::Unauthorized));
    assert!(matches!(status_kind(403, "x"), DeepSeekError::Forbidden));
    assert!(matches!(status_kind(402, "Insufficient Balance, top up"), DeepSeekError::InsufficientBalance));
    match status_kind(402, r#"{"error":{"message":"Payment Required"}}"#) {
        DeepSeekError::Api { status, message } => {
            assert_eq!(status, 402);
            assert_eq!(message, "Payment Required");
        }
        other => panic!("{:?}", other),
    }
    assert!(matches!(status_kind(429, "slow down"), DeepSeekError::RateLimited));
    for s in [500u16, 503, 599] {
        match status_kind(s, "oops") {
            DeepSeekError::Server { status } => assert_eq!(status, s),
            other => panic!("{:?}", other),
        }
    }
    match status_kind(404, "not here") {
        DeepSeekError::Api { status, message } => {
            assert_eq!(status, 404);
            assert_eq!(message, "not here");
        }
        other => panic!("{:?}", other),
    }
    match status_kind(600, "odd") {
        DeepSeekError::Api { status, .. } => assert_eq!(status, 600),
        other => panic!("{:?}", other),
    }
}

#[test]
fn classify_directly() {
    assert!(matches!(classify_failure(402, "Insufficient Balance".to_string()), DeepSeekError::InsufficientBalance));
    assert!(matches!(classify_failure(402, "insufficient balance".to_string()), DeepSeekError::Api { status: 402, .. }));
    assert!(matches!(classify_failure(401, "Insufficient Balance".to_string()), DeepSeekError::Unauthorized));
    assert!(matches!(classify_failure(499, String::new()), DeepSeekError::Api { status: 499, .. }));
}

#[test]
fn failure_message_falls_back_to_body() {
    let cases = [
        (r#"{"error":{"type":"x"}}"#, r#"{"error":{"type":"x"}}"#),
        (r#"{"error":null}"#, r#"{"error":null}"#),
        (r#"{"error":{"message":"m","code":7}}"#, r#"{"error":{"message":"m","code":7}}"#),
        (r#"{"error":{"message":"m","code":"c","type":null}}"#, "m"),
        ("plain text", "plain text"),
        ("", ""),
    ];
    for (body, want) in cases {
        match status_kind(400, body) {
            DeepSeekError::Api { status, message } => {
                assert_eq!(status, 400);
                assert_eq!(message, want);
            }
            other => panic!("{:?}", other),
        }
    }
}

#[test]
fn malformed_success_is_decoding_error() {
    for body in ["", "{", "not json", "[]", r#"{"id":1,"choices":[]}"#, r#"{"id":"x"}"#,
        r#"{"id":"x","choices":[{"index":-1,"message":{"role":"assistant"}}]}"#,
        r#"{"id":"x","choices":[{"index":0,"message":{"role":"robot"}}]}"#,
        r#"{"id":"x","choices":[],"usage":{"prompt_tokens":1}}"#] {
        assert!(matches!(decode_reply(200, body.to_string()), Err(DeepSeekError::Serde(_))), "{}", body);
    }
}

#[test]
fn optional_members_tolerated() {
    let body = r#"{"id":"r","object":"chat.completion","choices":[{"index":1,"message":{"role":"assistant","content":null}},{"index":2,"message":{"role":"user"}}],"usage":{"prompt_tokens":3,"completion_tokens":4,"total_tokens":7}}"#;
    let resp = decode_reply(201, body.to_string()).unwrap();
    assert_eq!(resp.choices.len(), 2);
    assert_eq!(resp.choices[0].message.content, None);
    assert_eq!(resp.choices[1].message.role, Role::User);
    assert_eq!(resp.usage, Some(Usage { prompt_tokens: 3, completion_tokens: 4, total_tokens: 7 }));
    let nulled = decode_reply(299, r#"{"id":"r","choices":[],"usage":null}"#.to_string()).unwrap();
    assert_eq!(nulled.usage, None);
}

#[test]
fn response_round_trip() {
    let resp = ChatCompletionResponse {
        id: "abc".to_string(),
        choices: vec![
            Choice { index: 0, message: MessageOut { role: Role::Assistant, content: Some("Hej!".to_string()) } },
            Choice { index: 4294967295, message: MessageOut { role: Role::System, content: None } },
        ],
        usage: Some(Usage { prompt_tokens: 10, completion_tokens: 0, total_tokens: 10 }),
    };
    assert_eq!(ChatCompletionResponse::from_json(&resp.to_json()), Some(resp.clone()));
    let bare = ChatCompletionResponse { id: String::new(), choices: vec![], usage: None };
    assert_eq!(ChatCompletionResponse::from_json(&bare.to_json()), Some(bare));
}

#[test]
fn number_text_reading() {
    let read = |s: &str| parse_u32(&s.to_string());
    assert_eq!(read("0"), Some(0));
    assert_eq!(read("128"), Some(128));
    assert_eq!(read("4294967295"), Some(4294967295));
    assert_eq!(read("4294967296"), None);
    assert_eq!(read("99999999999999999999"), None);
    assert_eq!(read("-1"), None);
    assert_eq!(read("1.0"), None);
    assert_eq!(read(""), None);
}

#[test]
fn envelope_shapes() {
    let env = |s: &str| ApiErrorEnvelope::from_json(&parse_document(s).unwrap());
    assert_eq!(env("{}"), Some(ApiErrorEnvelope { error: None }));
    assert_eq!(env("[1]"), None);
    let e = env(r#"{"error":{"message":"m","type":"t","code":"c"}}"#).unwrap().error.unwrap();
    assert_eq!(e.message.as_deref(), Some("m"));
    assert_eq!(e.error_type.as_deref(), Some("t"));
    assert_eq!(e.code.as_deref(), Some("c"));
    assert!(parse_document("{").is_err());
}

#[test]
fn decoding_error_names_the_member() {
    let cases = [
        (r#"[1]"#, "JSON object"),
        (r#"{"id":1,"choices":[]}"#, "`id`"),
        (r#"{"id":"x"}"#, "`choices`"),
        (r#"{"id":"x","choices":[],"usage":{"prompt_tokens":1}}"#, "`usage`"),
        (r#"{"id":"x","choices":[{"index":0}]}"#, "entry in `choices`"),
    ];
    for (body, part) in cases {
        match decode_reply(200, body.to_string()) {
            Err(DeepSeekError::Serde(e)) => assert!(e.to_string().contains(part), "{} {}", body, e),
            other => panic!("{:?}", other),
        }
    }
}
