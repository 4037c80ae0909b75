use ollama_rust::augment::{
    augment_with_response, brave_search_settle, plan_brave_search, status_message,
    BraveSearchResponse, ProviderReply, SearchPlan,
};

#[test]
fn blank_credential_is_rejected_without_any_call() {
    // A blank credential never reaches the provider: the plan is an
    // immediate rejection carrying the fixed error, and the chat turn keeps
    // the original query unchanged.
    for token in ["", "   ", "\t\n"] {
        let plan = plan_brave_search(token);
        let resp = match plan {
            SearchPlan::Reject(resp) => resp,
            SearchPlan::Call(_) => panic!("a blank credential must not plan a call"),
        };
        assert!(!resp.success);
        assert!(resp.results.is_empty());
        assert_eq!(resp.error.as_deref(), Some("API token is required"));
        assert_eq!(augment_with_response("my question", &resp), "my question");
    }
}

#[test]
fn credential_is_trimmed_for_the_call() {
    match plan_brave_search("  tok-123  ") {
        SearchPlan::Call(token) => assert_eq!(token, "tok-123"),
        SearchPlan::Reject(_) => panic!("a usable credential must plan a call"),
    }
}

#[test]
fn provider_failure_falls_back_to_original_query() {
    // Transport failures and error statuses all settle into a failed
    // response, and augmentation returns the original query, not an error.
    let replies = vec![
        ProviderReply::TransportFailure("connection reset".to_string()),
        ProviderReply::ErrorStatus(401),
        ProviderReply::ErrorStatus(429),
        ProviderReply::ErrorStatus(503),
        ProviderReply::Body("not json at all".to_string()),
    ];
    for reply in &replies {
        let resp = brave_search_settle(reply);
        assert!(!resp.success);
        assert_eq!(augment_with_response("original query", &resp), "original query");
    }
}

#[test]
fn provider_error_messages() {
    let transport = brave_search_settle(&ProviderReply::TransportFailure("boom".to_string()));
    assert_eq!(transport.error.as_deref(), Some("Request failed: boom"));
    let unauthorized = brave_search_settle(&ProviderReply::ErrorStatus(401));
    assert_eq!(unauthorized.error.as_deref(), Some("Invalid API token"));
    let limited = brave_search_settle(&ProviderReply::ErrorStatus(429));
    assert_eq!(limited.error.as_deref(), Some("Rate limit exceeded"));
    let other = brave_search_settle(&ProviderReply::ErrorStatus(500));
    assert_eq!(other.error.as_deref(), Some("API error: 500"));
    assert_eq!(status_message(404), "API error: 404");
    let malformed = brave_search_settle(&ProviderReply::Body("[1,2]".to_string()));
    assert_eq!(malformed.error.as_deref(), Some("Unknown error"));
}

#[test]
fn successful_payload_builds_augmented_prompt() {
    let body =
        "{\"web\":{\"results\":[{\"title\":\"T\",\"url\":\"U\",\"description\":\"D\"}]}}";
    let resp = brave_search_settle(&ProviderReply::Body(body.to_string()));
    assert!(resp.success);
    assert_eq!(resp.results.len(), 1);
    assert_eq!(resp.results[0].title, "T");
    assert_eq!(resp.results[0].url, "U");
    assert_eq!(resp.results[0].description, "D");
    let expected = "I searched the web for your question. Here are the relevant results:\n\n\
                    1. **T**\n   URL: U\n   D\n\n\
                    ---\nBased on the above web search results, please answer the following question:\n\nq";
    assert_eq!(augment_with_response("q", &resp), expected);
}

#[test]
fn result_selection_rules() {
    // Only the first five entries are considered; entries without a title or
    // url are dropped; a missing description becomes the empty string.
    let mut entries = Vec::new();
    entries.push("{\"title\":\"a\",\"url\":\"ua\"}".to_string());
    entries.push("{\"url\":\"no-title\"}".to_string());
    entries.push("{\"title\":\"no-url\"}".to_string());
    for i in 0..4 {
        entries.push(format!("{{\"title\":\"t{}\",\"url\":\"u{}\",\"description\":\"d\"}}", i, i));
    }
    let body = format!("{{\"web\":{{\"results\":[{}]}}}}", entries.join(","));
    let resp = brave_search_settle(&ProviderReply::Body(body));
    assert!(resp.success);
    // Five raw entries were considered: "a", the two unusable ones, "t0", "t1".
    assert_eq!(resp.results.len(), 3);
    assert_eq!(resp.results[0].title, "a");
    assert_eq!(resp.results[0].description, "");
    assert_eq!(resp.results[1].title, "t0");
    assert_eq!(resp.results[2].title, "t1");
}

#[test]
fn successful_but_empty_results_keep_query() {
    let resp = brave_search_settle(&ProviderReply::Body(
        "{\"web\":{\"results\":[]}}".to_string(),
    ));
    assert!(resp.success);
    assert!(resp.results.is_empty());
    assert_eq!(augment_with_response("keep me", &resp), "keep me");
    let handmade = BraveSearchResponse { success: true, results: Vec::new(), error: None };
    assert_eq!(augment_with_response("keep me", &handmade), "keep me");
}

#[test]
fn numbering_counts_from_one() {
    let body = format!(
        "{{\"web\":{{\"results\":[{},{}]}}}}",
        "{\"title\":\"first\",\"url\":\"u1\",\"description\":\"\"}",
        "{\"title\":\"second\",\"url\":\"u2\",\"description\":\"\"}"
    );
    let resp = brave_search_settle(&ProviderReply::Body(body));
    let text = augment_with_response("q", &resp);
    assert!(text.contains("1. **first**"));
    assert!(text.contains("2. **second**"));
}
