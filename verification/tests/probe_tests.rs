use ollama_rust::probe::get_ollama_status;

#[test]
fn failed_connection_reports_not_running() {
    // A failed connection is not an error: it settles into "not running,
    // nothing installed".
    let status = get_ollama_status(&None);
    assert!(!status.running);
    assert!(status.models.is_empty());
}

#[test]
fn catalog_names_are_extracted_in_order() {
    let body = "{\"models\":[{\"name\":\"llama3:8b\"},{\"name\":\"gemma:2b\"}]}".to_string();
    let status = get_ollama_status(&Some(body));
    assert!(status.running);
    assert_eq!(status.models, vec!["llama3:8b".to_string(), "gemma:2b".to_string()]);
}

#[test]
fn missing_or_malformed_catalog_means_running_with_nothing() {
    let empty = get_ollama_status(&Some("{}".to_string()));
    assert!(empty.running);
    assert!(empty.models.is_empty());
    let malformed = get_ollama_status(&Some("no json here".to_string()));
    assert!(malformed.running);
    assert!(malformed.models.is_empty());
}

#[test]
fn entries_without_a_name_are_dropped() {
    let body = "{\"models\":[{\"name\":\"a\"},{\"size\":3},{\"name\":\"b\"}]}".to_string();
    let status = get_ollama_status(&Some(body));
    assert_eq!(status.models, vec!["a".to_string(), "b".to_string()]);
}
