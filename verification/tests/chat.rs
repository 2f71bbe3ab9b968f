use stig::chat::{chat_request, generate_request, CHAT_URL, GENERATE_URL, TAGS_URL};

fn message(role: &str, content: &str) -> serde_json::Value {
    let mut map = serde_json::Map::new();
    map.insert("role".to_string(), serde_json::Value::String(role.to_string()));
    map.insert("content".to_string(), serde_json::Value::String(content.to_string()));
    serde_json::Value::Object(map)
}

#[test]
fn chat_request_holds_model_messages_and_no_stream() {
    let messages = vec![message("user", "hello"), message("assistant", "hi")];
    let body = chat_request("llama3:8b".to_string(), messages.clone());
    let object = body.as_object().unwrap();
    assert_eq!(object.len(), 3);
    assert_eq!(body["model"], serde_json::Value::String("llama3:8b".to_string()));
    assert_eq!(body["messages"], serde_json::Value::Array(messages));
    assert_eq!(body["stream"], serde_json::Value::Bool(false));
}

#[test]
fn chat_request_serialises_as_expected() {
    let body = chat_request("m".to_string(), vec![message("user", "x")]);
    let expected: serde_json::Value = serde_json::from_str(
        "{\"model\":\"m\",\"messages\":[{\"role\":\"user\",\"content\":\"x\"}],\"stream\":false}",
    )
    .unwrap();
    assert_eq!(body, expected);
}

#[test]
fn chat_request_hands_on_any_messages() {
    let odd = vec![serde_json::Value::Null, serde_json::Value::from(3), serde_json::Value::Bool(true)];
    let body = chat_request(String::new(), odd.clone());
    assert_eq!(body["model"], serde_json::Value::String(String::new()));
    assert_eq!(body["messages"].as_array().unwrap(), &odd);
    let none = chat_request("m".to_string(), Vec::new());
    assert_eq!(none["messages"], serde_json::Value::Array(Vec::new()));
}

#[test]
fn generate_request_holds_model_prompt_and_no_stream() {
    let body = generate_request("phi".to_string(), "Say hi".to_string());
    let expected: serde_json::Value =
        serde_json::from_str("{\"model\":\"phi\",\"prompt\":\"Say hi\",\"stream\":false}").unwrap();
    assert_eq!(body, expected);
    assert_eq!(body.as_object().unwrap().len(), 3);
}

#[test]
fn endpoints_are_those_of_the_local_server() {
    assert_eq!(CHAT_URL, "http://localhost:11434/api/chat");
    assert_eq!(GENERATE_URL, "http://localhost:11434/api/generate");
    assert_eq!(TAGS_URL, "http://localhost:11434/api/tags");
}
