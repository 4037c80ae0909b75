use ollama_rust::store::{model_installed, ProgressStore};

#[test]
fn blank_id_rejected_and_not_stored() {
    let mut store = ProgressStore::new();
    let rec = store.start_model_pull("   ");
    assert!(rec.done);
    assert_eq!(rec.status, "Error");
    assert_eq!(rec.error.as_deref(), Some("Model name cannot be empty"));
    assert_eq!(rec.percent, 0);
    // Nothing was stored: a later poll falls back to "Waiting...".
    let polled = store.check_pull_progress("   ", &Vec::new());
    assert_eq!(polled.status, "Waiting...");
}

#[test]
fn start_stores_trimmed_starting_record() {
    let mut store = ProgressStore::new();
    let rec = store.start_model_pull("  llama3  ");
    assert_eq!(rec.model, "llama3");
    assert_eq!(rec.status, "Starting...");
    assert_eq!(rec.percent, 0);
    assert!(!rec.done);
    let stored = store.get("llama3").expect("stored under the trimmed id");
    assert_eq!(stored.status, "Starting...");
}

#[test]
fn cancel_sets_terminal_record_and_late_line_is_ignored() {
    // Cancelling a running download stores the fixed terminal record, and a
    // late upstream line for the same id does not alter it.
    let mut store = ProgressStore::new();
    store.start_model_pull("X");
    store.apply_pull_line("X", "{\"status\":\"downloading\",\"total\":100,\"completed\":40}", 1);
    let marked = store.cancel_model_pull("X");
    assert!(marked);
    let rec = store.get("X").unwrap().clone_record();
    assert_eq!(rec.status, "Cancelled");
    assert!(rec.done);
    assert_eq!(rec.error.as_deref(), Some("Download cancelled by user"));
    store.apply_pull_line("X", "{\"status\":\"downloading\",\"total\":100,\"completed\":90}", 2);
    let after = store.get("X").unwrap().clone_record();
    assert_eq!(after.status, "Cancelled");
    assert!(after.done);
    assert_eq!(after.error.as_deref(), Some("Download cancelled by user"));
    assert_eq!(after.percent, rec.percent);
}

#[test]
fn cancel_without_record_or_after_terminal_changes_nothing() {
    let mut store = ProgressStore::new();
    assert!(!store.cancel_model_pull("absent"));
    store.start_model_pull("m");
    store.apply_pull_line("m", "{\"status\":\"success\"}", 1);
    assert!(!store.cancel_model_pull("m"));
    let rec = store.get("m").unwrap();
    assert_eq!(rec.status, "Complete");
    assert!(rec.error.is_none());
}

#[test]
fn success_is_not_resurrected_by_error_line() {
    let mut store = ProgressStore::new();
    store.start_model_pull("m");
    store.apply_pull_line("m", "{\"status\":\"success\"}", 1);
    store.apply_pull_line("m", "{\"status\":\"pulling\",\"error\":\"late failure\"}", 2);
    let rec = store.get("m").unwrap();
    assert_eq!(rec.status, "Complete");
    assert!(rec.error.is_none());
    assert_eq!(rec.percent, 100);
}

#[test]
fn poll_without_record_uses_catalog() {
    // No record, no catalog match: "Waiting...". No record but an installed
    // entry matching the id: a synthesized "Complete" record.
    let store = ProgressStore::new();
    let waiting = store.check_pull_progress("gemma", &vec!["llama3:8b".to_string()]);
    assert_eq!(waiting.status, "Waiting...");
    assert!(!waiting.done);
    assert_eq!(waiting.percent, 0);
    let complete = store.check_pull_progress("gemma", &vec!["gemma:2b".to_string()]);
    assert_eq!(complete.status, "Complete");
    assert!(complete.done);
    assert_eq!(complete.percent, 100);
    assert!(complete.error.is_none());
}

#[test]
fn poll_prefers_stored_record() {
    let mut store = ProgressStore::new();
    store.start_model_pull("gemma");
    store.apply_pull_line("gemma", "{\"status\":\"downloading\",\"total\":4,\"completed\":1}", 1);
    let rec = store.check_pull_progress("gemma", &vec!["gemma:2b".to_string()]);
    assert_eq!(rec.percent, 25);
    assert_eq!(rec.status, "downloading");
}

#[test]
fn catalog_match_by_prefix_or_substring() {
    let names = vec!["mistral-nemo:12b".to_string()];
    assert!(model_installed(&names, "mistral-nemo"));
    assert!(model_installed(&names, "nemo"));
    assert!(!model_installed(&names, "gemma"));
    assert!(!model_installed(&Vec::new(), "anything"));
}

#[test]
fn transport_failure_writes_terminal_error_once() {
    let mut store = ProgressStore::new();
    store.start_model_pull("m");
    store.record_transport_failure("m", "connection refused");
    let rec = store.get("m").unwrap().clone_record();
    assert_eq!(rec.status, "Error");
    assert!(rec.done);
    assert_eq!(rec.error.as_deref(), Some("connection refused"));
    // A cancelled or otherwise terminal record is not overwritten.
    let mut second = ProgressStore::new();
    second.start_model_pull("n");
    second.cancel_model_pull("n");
    second.record_transport_failure("n", "dropped");
    let kept = second.get("n").unwrap();
    assert_eq!(kept.status, "Cancelled");
    assert_eq!(kept.error.as_deref(), Some("Download cancelled by user"));
}
