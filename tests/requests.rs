use deepseek_client::client::DeepSeekClient;
use deepseek_client::error::DeepSeekError;
use deepseek_client::models::{Message, Model, Role};
use deepseek_client::request::{message_from_quoted, message_json, ChatCompletionRequest, Temperature};

fn client() -> DeepSeekClient {
    DeepSeekClient::from_settings(reqwest::Client::new(), Some("sk-test".to_string()), None).unwrap()
}

#[test]
fn missing_key_fails_at_construction() {
    let r = DeepSeekClient::from_settings(reqwest::Client::new(), None, Some("http://localhost".to_string()));
    assert!(matches!(r, Err(DeepSeekError::MissingApiKey)));
}

#[test]
fn base_url_defaults_and_overrides() {
    let c = client();
    assert_eq!(c.base_url(), "https://api.deepseek.com");
    assert_eq!(c.api_key(), "sk-test");
    assert_eq!(c.completions_url(), "https://api.deepseek.com/chat/completions");
    let c2 = DeepSeekClient::from_settings(
        reqwest::Client::new(),
        Some("k".to_string()),
        Some("http://localhost:8080".to_string()),
    )
    .unwrap();
    assert_eq!(c2.completions_url(), "http://localhost:8080/chat/completions");
}

#[test]
fn builder_defaults() {
    let c = client();
    let req = c.chat().build();
    assert_eq!(req.model, Model::DeepseekChat);
    assert!(req.messages.is_empty());
    assert_eq!(req.temperature, None);
    assert_eq!(req.max_tokens, None);
    assert_eq!(req.stream, Some(false));
    assert_eq!(req.to_json_text(), r#"{"model":"deepseek-chat","messages":[],"stream":false}"#);
}

#[test]
fn messages_keep_call_order() {
    let c = client();
    let req = c.chat().user("a").system("b").assistant("c").user("d").model(Model::DeepseekReasoner).build();
    let got: Vec<(Role, &str)> = req.messages.iter().map(|m| (m.role, m.content.as_str())).collect();
    assert_eq!(
        got,
        vec![(Role::User, "a"), (Role::System, "b"), (Role::Assistant, "c"), (Role::User, "d")]
    );
    assert_eq!(req.model, Model::DeepseekReasoner);
}

#[test]
fn scenario_request_body() {
    let c = client();
    let req = c
        .chat()
        .model(Model::DeepseekChat)
        .system("You are a helpful assistant.")
        .user("Say hello in Swedish!")
        .temperature(Temperature::from_text("0.7").unwrap())
        .max_tokens(128)
        .build();
    assert_eq!(
        req.to_json_text(),
        format!(
            "{}{}",
            r#"{"model":"deepseek-chat","messages":[{"role":"system","content":"You are a helpful assistant."},"#,
            r#"{"role":"user","content":"Say hello in Swedish!"}],"temperature":0.7,"max_tokens":128,"stream":false}"#
        )
    );
}

#[test]
fn unset_parameters_have_no_key() {
    let req = ChatCompletionRequest {
        model: Model::DeepseekReasoner,
        messages: vec![Message { role: Role::User, content: "hi".to_string() }],
        temperature: None,
        max_tokens: None,
        stream: None,
    };
    let text = req.to_json_text();
    assert_eq!(text, r#"{"model":"deepseek-reasoner","messages":[{"role":"user","content":"hi"}]}"#);
    assert!(!text.contains("temperature"));
    assert!(!text.contains("max_tokens"));
    assert!(!text.contains("stream"));
    assert!(!text.contains("null"));
    let v: serde_json::Value = serde_json::from_str(&text).unwrap();
    assert!(v.get("temperature").is_none());
}

#[test]
fn temperature_text_forms() {
    for want in ["0.7", "1.0", "1.25", "0.005", "0", "2", "-1.0", "-0", "0.1234", "12.50", "5"] {
        let req = ChatCompletionRequest {
            model: Model::DeepseekChat,
            messages: vec![],
            temperature: Some(Temperature::from_text(want).unwrap()),
            max_tokens: Some(4294967295),
            stream: Some(true),
        };
        let expected = format!(
            r#"{{"model":"deepseek-chat","messages":[],"temperature":{},"max_tokens":4294967295,"stream":true}}"#,
            want
        );
        assert_eq!(req.to_json_text(), expected);
        let v: serde_json::Value = serde_json::from_str(&expected).unwrap();
        assert!(v["temperature"].is_number());
    }
}

#[test]
fn temperature_text_rejected() {
    for bad in ["", "-", ".5", "5.", "01", "-01.2", "1.2.3", "1e3", "+1", "0x1", " 1", "NaN", "--1"] {
        assert!(Temperature::from_text(bad).is_none(), "{}", bad);
    }
}

#[test]
fn control_characters_escaped() {
    let m = Message { role: Role::User, content: "\u{1}\u{8}\u{c}\r\u{1f} /\u{7f}\u{e9}".to_string() };
    assert_eq!(message_json(&m), "{\"role\":\"user\",\"content\":\"\\u0001\\b\\f\\r\\u001f /\u{7f}\u{e9}\"}");
}

#[test]
fn content_is_escaped() {
    let c = client();
    let req = c.chat().user("say \"hi\"\n\\").build();
    let text = req.to_json_text();
    assert_eq!(
        text,
        r#"{"model":"deepseek-chat","messages":[{"role":"user","content":"say \"hi\"\n\\"}],"stream":false}"#
    );
    let v: serde_json::Value = serde_json::from_str(&text).unwrap();
    assert_eq!(v["messages"][0]["content"], "say \"hi\"\n\\");
}

#[test]
fn message_object_from_quoted_content() {
    assert_eq!(message_from_quoted(Role::Assistant, "\"x\""), r#"{"role":"assistant","content":"x"}"#);
    assert_eq!(message_from_quoted(Role::System, "null"), r#"{"role":"system","content":null}"#);
    let m = Message { role: Role::User, content: "tab\there".to_string() };
    assert_eq!(message_json(&m), r#"{"role":"user","content":"tab\there"}"#);
}
