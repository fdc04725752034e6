use ai_assistance::ai::{
    active_base_url_and_key, ai_provider_status, chat_endpoint, default_provider_settings,
    drain_sse_lines, final_sse_line, merge_ai_provider_settings, missing_key_message,
    normalize_url, provider_http_error, session_id_for, sse_payload, token_delta, usable_key,
    AiProviderSettingsInput,
};

fn empty_input() -> AiProviderSettingsInput {
    AiProviderSettingsInput {
        active_provider: None,
        poe_base_url: None,
        poe_api_key_env: None,
        poe_model: None,
        alibaba_base_url: None,
        alibaba_api_key_env: None,
        alibaba_model: None,
    }
}

#[test]
fn defaults_use_poe() {
    let d = default_provider_settings();
    assert_eq!(d.active_provider, "poe");
    assert_eq!(d.poe_model, "GPT-4o");
    assert_eq!(d.alibaba_model, "qwen-plus");
    let (url, env, model, label) = active_base_url_and_key(&d);
    assert_eq!(url, "https://api.poe.com/v1");
    assert_eq!(env, "POE_API_KEY");
    assert_eq!(model, "GPT-4o");
    assert_eq!(label, "Poe");
}

#[test]
fn provider_is_switched_only_to_known_names() {
    let d = default_provider_settings();
    let mut input = empty_input();
    input.active_provider = Some("  AliBaba ".to_string());
    input.alibaba_model = Some("  qwen-max  ".to_string());
    input.poe_model = Some("   ".to_string());
    let m = merge_ai_provider_settings(&d, &input, 99);
    assert_eq!(m.active_provider, "alibaba");
    assert_eq!(m.alibaba_model, "qwen-max");
    assert_eq!(m.poe_model, "GPT-4o");
    assert_eq!(m.updated_at, 99);
    let (_, _, model, label) = active_base_url_and_key(&m);
    assert_eq!(model, "qwen-max");
    assert_eq!(label, "Alibaba Qwen");

    let mut bad = empty_input();
    bad.active_provider = Some("openai".to_string());
    assert_eq!(merge_ai_provider_settings(&m, &bad, 100).active_provider, "alibaba");
}

#[test]
fn empty_update_keeps_settings() {
    let d = default_provider_settings();
    let m = merge_ai_provider_settings(&d, &empty_input(), 5);
    assert_eq!(m.active_provider, d.active_provider);
    assert_eq!(m.poe_base_url, d.poe_base_url);
    assert_eq!(m.alibaba_api_key_env, d.alibaba_api_key_env);
    assert_eq!(m.updated_at, 5);
}

#[test]
fn update_applied_twice_equals_once() {
    let d = default_provider_settings();
    let mut input = empty_input();
    input.poe_base_url = Some(" https://x.example/v1/ ".to_string());
    input.active_provider = Some("POE".to_string());
    let once = merge_ai_provider_settings(&d, &input, 1);
    let twice = merge_ai_provider_settings(&once, &input, 1);
    assert_eq!(once.poe_base_url, twice.poe_base_url);
    assert_eq!(once.active_provider, twice.active_provider);
    assert_eq!(once.poe_base_url, "https://x.example/v1/");
}

#[test]
fn status_reports_keys_and_active_model() {
    let s = ai_provider_status(default_provider_settings(), true, false);
    assert!(s.poe_api_key_present);
    assert!(!s.alibaba_api_key_present);
    assert_eq!(s.active_model, "GPT-4o");
    assert_eq!(s.active_provider_label, "Poe");
}

#[test]
fn urls_are_normalized() {
    assert_eq!(normalize_url("  https://api.poe.com/v1///  "), "https://api.poe.com/v1");
    assert_eq!(chat_endpoint("https://api.poe.com/v1/"), "https://api.poe.com/v1/chat/completions");
}

#[test]
fn blank_keys_do_not_count() {
    assert_eq!(usable_key(Some("  ".to_string())), None);
    assert_eq!(usable_key(Some(" k ".to_string())), Some(" k ".to_string()));
    assert_eq!(usable_key(None), None);
}

#[test]
fn messages() {
    assert_eq!(
        missing_key_message("POE_API_KEY"),
        "API key not found in environment variable 'POE_API_KEY'. Set it before streaming."
    );
    assert_eq!(provider_http_error(401, "nope"), "Provider returned HTTP 401: nope");
    assert_eq!(session_id_for(1700000000123456789), "session-1700000000123456789");
}

#[test]
fn token_batches_account_for_resends() {
    // first save of a batch adds its count; resending it with the same count adds nothing
    assert_eq!(token_delta(12, None), 12);
    assert_eq!(token_delta(12, Some(12)), 0);
    assert_eq!(token_delta(10, Some(12)), -2);
    let mut total = 0i64;
    let mut stored: Vec<(i64, i64)> = Vec::new();
    for (idx, count) in [(0i64, 5i64), (1, 7), (0, 5), (1, 9), (2, 1)] {
        let existing = stored.iter().find(|(i, _)| *i == idx).map(|(_, c)| *c);
        total += token_delta(count, existing);
        stored.retain(|(i, _)| *i != idx);
        stored.push((idx, count));
    }
    assert_eq!(total, stored.iter().map(|(_, c)| c).sum::<i64>());
    assert_eq!(total, 15);
}

#[test]
fn sse_payloads() {
    assert_eq!(sse_payload("data: {\"a\":1}  "), Some("{\"a\":1}".to_string()));
    assert_eq!(sse_payload("data: [DONE]"), None);
    assert_eq!(sse_payload("event: ping"), None);
    assert_eq!(sse_payload("data:x"), None);
}

#[test]
fn sse_buffer_is_cut_at_newlines() {
    let mut buffer = String::from("data: one\r\n: comment\n\n  data: two \ndata: thr");
    let lines = drain_sse_lines(&mut buffer);
    assert_eq!(lines, vec!["data: one".to_string(), "data: two".to_string()]);
    assert_eq!(buffer, "data: thr");
    buffer.push_str("ee\n");
    assert_eq!(drain_sse_lines(&mut buffer), vec!["data: three".to_string()]);
    assert_eq!(buffer, "");
    assert_eq!(final_sse_line("  data: tail  "), Some("data: tail".to_string()));
    assert_eq!(final_sse_line(" : keepalive"), None);
    assert_eq!(final_sse_line("   "), None);
}
