use stig::models::{catalogue_descriptors, describe, descriptor, list_models};

#[test]
fn list_models_describes_each_model() {
    let models = list_models("{\"models\":[{\"name\":\"llama3:8b\"}]}").unwrap();
    assert_eq!(models.len(), 1);
    assert_eq!(models[0].name, "llama3:8b");
    assert_eq!(models[0].description, "llama3");
}

#[test]
fn list_models_of_an_empty_catalogue_is_empty() {
    assert!(list_models("{\"models\":[]}").unwrap().is_empty());
}

#[test]
fn list_models_without_the_field_is_empty() {
    assert!(list_models("{}").unwrap().is_empty());
    assert!(list_models("{\"other\":[{\"name\":\"x\"}]}").unwrap().is_empty());
}

#[test]
fn list_models_with_a_field_that_is_no_array_is_empty() {
    assert!(list_models("{\"models\":\"llama3\"}").unwrap().is_empty());
    assert!(list_models("{\"models\":{\"name\":\"llama3\"}}").unwrap().is_empty());
    assert!(list_models("[{\"name\":\"llama3\"}]").unwrap().is_empty());
    assert!(list_models("null").unwrap().is_empty());
}

#[test]
fn list_models_keeps_the_order_and_names_the_nameless() {
    let payload = "{\"models\":[{\"name\":\"mistral-7b-instruct:latest\",\"size\":1},{\"size\":2},{\"name\":7},\"text\",{\"name\":\"phi\"}]}";
    let models = list_models(payload).unwrap();
    let got: Vec<(String, String)> =
        models.into_iter().map(|m| (m.name, m.description)).collect();
    let expected: Vec<(String, String)> = [
        ("mistral-7b-instruct:latest", "mistral 7b instruct"),
        ("", ""),
        ("", ""),
        ("", ""),
        ("phi", "phi"),
    ]
    .iter()
    .map(|(n, d)| (n.to_string(), d.to_string()))
    .collect();
    assert_eq!(got, expected);
}

#[test]
fn list_models_rejects_what_is_no_json() {
    let error = list_models("{\"models\":[").unwrap_err();
    let expected = serde_json::from_str::<serde_json::Value>("{\"models\":[").unwrap_err();
    assert_eq!(error, expected.to_string());
    assert!(list_models("").is_err());
    assert!(list_models("{} {}").is_err());
}

#[test]
fn describe_cuts_at_the_first_colon_and_spaces_hyphens() {
    assert_eq!(describe("llama3:8b"), "llama3");
    assert_eq!(describe("code-llama-13b:q4:extra"), "code llama 13b");
    assert_eq!(describe("plain"), "plain");
    assert_eq!(describe(""), "");
    assert_eq!(describe(":tag"), "");
    assert_eq!(describe("a--b"), "a  b");
    assert_eq!(describe("no-colon-here"), "no colon here");
    assert_eq!(describe("tag:with-hyphen"), "tag");
}

#[test]
fn describe_agrees_with_split_and_replace() {
    for name in ["llama3:8b", "a-b:c-d", "-", ":", "é-ü:1", "x: y", "a:b:c"] {
        let expected = name.split(':').next().unwrap_or("").replace('-', " ");
        assert_eq!(describe(name), expected);
    }
}

#[test]
fn descriptor_keeps_the_name() {
    let model = descriptor("qwen-2:0.5b".to_string());
    assert_eq!(model.name, "qwen-2:0.5b");
    assert_eq!(model.description, "qwen 2");
}

#[test]
fn catalogue_descriptors_reads_a_parsed_document() {
    let catalogue: serde_json::Value =
        serde_json::from_str("{\"models\":[{\"name\":\"a-b:1\"},{\"name\":\"c\"}]}").unwrap();
    let models = catalogue_descriptors(&catalogue);
    assert_eq!(models.len(), 2);
    assert_eq!(models[0].description, "a b");
    assert_eq!(models[1].name, "c");
}
