use ollama_rust::bytes::format_bytes;
use ollama_rust::store::ProgressStore;

fn get_record(store: &ProgressStore, id: &str) -> ollama_rust::progress::PullProgress {
    store.get(id).expect("record should exist").clone_record()
}

#[test]
fn pull_stream_percent_carry_and_complete() {
    // A size-bearing line, a status-only line, then the success marker:
    // percents 25 -> 25 (carried) -> 100, final status "Complete", done.
    let mut store = ProgressStore::new();
    store.start_model_pull("m");
    store.apply_pull_line("m", "{\"status\":\"downloading\",\"total\":1000,\"completed\":250}", 1);
    assert_eq!(get_record(&store, "m").percent, 25);
    store.apply_pull_line("m", "{\"status\":\"downloading\"}", 2);
    let mid = get_record(&store, "m");
    assert_eq!(mid.percent, 25);
    assert!(!mid.done);
    store.apply_pull_line("m", "{\"status\":\"success\"}", 3);
    let fin = get_record(&store, "m");
    assert_eq!(fin.percent, 100);
    assert_eq!(fin.status, "Complete");
    assert!(fin.done);
    assert!(fin.error.is_none());
}

#[test]
fn status_only_line_never_resets_percent() {
    let mut store = ProgressStore::new();
    store.start_model_pull("m");
    store.apply_pull_line("m", "{\"status\":\"downloading\",\"total\":200,\"completed\":120}", 1);
    assert_eq!(get_record(&store, "m").percent, 60);
    store.apply_pull_line("m", "{\"status\":\"verifying sha256 digest\"}", 2);
    let rec = get_record(&store, "m");
    assert_eq!(rec.percent, 60);
    assert_eq!(rec.status, "verifying sha256 digest");
}

#[test]
fn percent_monotone_over_growing_sizes() {
    let mut store = ProgressStore::new();
    store.start_model_pull("m");
    let mut last = 0;
    let steps = [(1000u64, 10u64), (1000, 250), (1000, 250), (1000, 700), (1000, 1000)];
    for (i, (total, completed)) in steps.iter().enumerate() {
        let line = format!(
            "{{\"status\":\"downloading\",\"total\":{},\"completed\":{}}}",
            total, completed
        );
        store.apply_pull_line("m", &line, i as i64);
        let p = get_record(&store, "m").percent;
        assert!(p >= last);
        last = p;
    }
    assert_eq!(last, 100);
}

#[test]
fn error_line_makes_terminal_failure() {
    let mut store = ProgressStore::new();
    store.start_model_pull("m");
    store.apply_pull_line("m", "{\"status\":\"pulling\",\"error\":\"boom\"}", 1);
    let rec = get_record(&store, "m");
    assert!(rec.done);
    assert_eq!(rec.status, "pulling");
    assert_eq!(rec.error.as_deref(), Some("boom"));
}

#[test]
fn unparseable_line_is_skipped() {
    let mut store = ProgressStore::new();
    store.start_model_pull("m");
    store.apply_pull_line("m", "{\"status\":\"downloading\",\"total\":10,\"completed\":5}", 1);
    store.apply_pull_line("m", "this is not json", 2);
    let rec = get_record(&store, "m");
    assert_eq!(rec.percent, 50);
    assert!(!rec.done);
}

#[test]
fn completed_beyond_total_clamps_to_hundred() {
    let mut store = ProgressStore::new();
    store.start_model_pull("m");
    store.apply_pull_line("m", "{\"status\":\"downloading\",\"total\":10,\"completed\":30}", 1);
    assert_eq!(get_record(&store, "m").percent, 100);
    assert!(!get_record(&store, "m").done);
}

#[test]
fn rate_label_set_and_carried() {
    let mut store = ProgressStore::new();
    store.start_model_pull("m");
    store.apply_pull_line("m", "{\"status\":\"downloading\",\"total\":2048,\"completed\":1024}", 1);
    let rec = get_record(&store, "m");
    assert_eq!(rec.speed, "1.0 KB / 2.0 KB");
    assert_eq!(rec.bytes_downloaded, 1024);
    store.apply_pull_line("m", "{\"status\":\"downloading\"}", 2);
    assert_eq!(get_record(&store, "m").speed, "1.0 KB / 2.0 KB");
}

#[test]
fn format_bytes_exact_values() {
    assert_eq!(format_bytes(0), "0 B");
    assert_eq!(format_bytes(512), "512 B");
    assert_eq!(format_bytes(1023), "1023 B");
    assert_eq!(format_bytes(1024), "1.0 KB");
    assert_eq!(format_bytes(1536), "1.5 KB");
    assert_eq!(format_bytes(1590), "1.6 KB");
    assert_eq!(format_bytes(1048576), "1.0 MB");
    assert_eq!(format_bytes(1572864), "1.5 MB");
    assert_eq!(format_bytes(1073741824), "1.0 GB");
    assert_eq!(format_bytes(2684354560), "2.5 GB");
}
