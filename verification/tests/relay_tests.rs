use ollama_rust::relay::{
    canned_cloud_events, is_cloud_model, plan_completion, relay_line, relay_stream,
    sentinel_token, upstream_unreachable_event, CompletionPlan, RelayEvent,
};
use ollama_rust::PromptRequest;

fn fragments(events: &[RelayEvent]) -> Vec<String> {
    events
        .iter()
        .filter_map(|e| match e {
            RelayEvent::Fragment(t) => Some(t.clone()),
            _ => None,
        })
        .collect()
}

#[test]
fn completion_stream_fragments_then_sentinel() {
    // {"response":"Hel"}, {"response":"lo"}, {"done":true} yields the
    // fragments "Hel", "lo" and then the terminal sentinel.
    let lines = vec![
        "{\"response\":\"Hel\"}".to_string(),
        "{\"response\":\"lo\"}".to_string(),
        "{\"done\":true}".to_string(),
    ];
    let events = relay_stream(&lines);
    assert_eq!(events.len(), 3);
    assert!(matches!(&events[0], RelayEvent::Fragment(t) if t == "Hel"));
    assert!(matches!(&events[1], RelayEvent::Fragment(t) if t == "lo"));
    assert!(matches!(&events[2], RelayEvent::Sentinel));
}

#[test]
fn stream_stops_at_terminal_line() {
    let lines = vec![
        "{\"response\":\"a\"}".to_string(),
        "{\"response\":\"b\",\"done\":true}".to_string(),
        "{\"response\":\"ignored\"}".to_string(),
    ];
    let events = relay_stream(&lines);
    assert_eq!(events.len(), 3);
    assert!(matches!(&events[1], RelayEvent::Fragment(t) if t == "b"));
    assert!(matches!(&events[2], RelayEvent::Sentinel));
}

#[test]
fn bad_lines_are_skipped() {
    let lines = vec![
        "garbage".to_string(),
        "{\"response\":\"ok\"}".to_string(),
    ];
    let events = relay_stream(&lines);
    assert_eq!(fragments(&events), vec!["ok".to_string()]);
    assert!(events.iter().all(|e| !matches!(e, RelayEvent::Sentinel)));
}

#[test]
fn single_line_events() {
    let events = relay_line("{\"response\":\"hi\",\"done\":true}");
    assert_eq!(events.len(), 2);
    assert!(matches!(&events[0], RelayEvent::Fragment(t) if t == "hi"));
    assert!(matches!(&events[1], RelayEvent::Sentinel));
    assert!(relay_line("{}").is_empty());
    assert!(relay_line("not json").is_empty());
    let done_only = relay_line("{\"done\":false}");
    assert!(done_only.is_empty());
}

#[test]
fn cloud_model_detection() {
    assert!(is_cloud_model("cloud:gpt-4-turbo"));
    assert!(!is_cloud_model("llama3:8b"));
    assert!(!is_cloud_model(""));
}

#[test]
fn cloud_plan_is_canned_word_stream() {
    let req = PromptRequest {
        model: "cloud:gpt-4-turbo".to_string(),
        prompt: "What is Rust?".to_string(),
    };
    let plan = plan_completion(&req);
    let events = match plan {
        CompletionPlan::Canned(events) => events,
        CompletionPlan::Upstream => panic!("cloud model must be served canned"),
    };
    assert!(matches!(events.last(), Some(RelayEvent::Sentinel)));
    let words = fragments(&events);
    assert_eq!(words[0], "[Cloud ");
    assert_eq!(words[1], "Demo] ");
    // Every fragment is one word with a trailing space.
    assert!(words.iter().all(|w| w.ends_with(' ')));
    // The canned text echoes the prompt and names the stripped model id.
    assert!(words.iter().any(|w| w == "Rust?\" "));
    assert!(words.iter().any(|w| w == "'gpt-4-turbo'. "));
}

#[test]
fn canned_text_clips_long_prompts() {
    let long_prompt = "x".repeat(250);
    let events = canned_cloud_events("cloud:demo", &long_prompt);
    let words = fragments(&events);
    let echoed = words
        .iter()
        .find(|w| w.contains('x'))
        .expect("the clipped prompt appears");
    // The quotes, one hundred characters of prompt, the trailing space.
    assert_eq!(echoed.len(), 103);
    assert_eq!(echoed.matches('x').count(), 100);
}

#[test]
fn ordinary_model_goes_upstream() {
    let req = PromptRequest { model: "llama3".to_string(), prompt: "hi".to_string() };
    assert!(matches!(plan_completion(&req), CompletionPlan::Upstream));
}

#[test]
fn sentinel_and_diagnostic_values() {
    assert_eq!(sentinel_token(), "__END__");
    let e = upstream_unreachable_event();
    assert!(matches!(&e, RelayEvent::Diagnostic(t) if t == "[Error: Ollama not reachable]"));
}
