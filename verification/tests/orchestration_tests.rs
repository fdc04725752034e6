use ai_assistance::dates::Ymd;
use ai_assistance::orchestration::{
    agent_base_url, agent_launch_step, agent_status, annotate_note, collect_related_files,
    default_agent_settings, due_offset_days, extract_keywords, fallback_group, inferred_due_date,
    matches_rule, merge_agent_settings, next_orchestration_step, pending_action,
    plan_action_application, process_signal_fallback, render_template, urlencoding,
    AgentLaunchCommand, AgentLaunchEvent, AgentLaunchPhase, OrchestrationAgentSettingsInput,
    OrchestrationCommand, OrchestrationEvent, OrchestrationPhase, OrchestrationRule,
    OrchestrationSignalInput, RelatedFile,
};

fn signal(source: &str, content: &str) -> OrchestrationSignalInput {
    OrchestrationSignalInput { source: source.to_string(), content: content.to_string(), metadata: None }
}

#[test]
fn keywords_are_distinct_lowercase_and_at_most_eight() {
    let k = extract_keywords("Meeting about the NEW budget, budget review; plan plan");
    assert_eq!(k, vec!["meeting", "about", "budget", "review", "plan"]);
    let many = extract_keywords("alpha bravo charlie delta echoes foxtrot golfer hotel indigo juliet");
    assert_eq!(many.len(), 8);
    assert_eq!(many[7], "hotel");
    assert!(extract_keywords("a bc def").is_empty());
}

#[test]
fn rule_patterns_match_case_insensitively() {
    assert!(matches_rule(&Some("Slack".to_string()), &None, "slack-bot", "anything"));
    assert!(!matches_rule(&Some("mail".to_string()), &None, "slack", "anything"));
    assert!(matches_rule(&Some("   ".to_string()), &Some("Exam".to_string()), "x", "an exam soon"));
    assert!(!matches_rule(&None, &Some("exam".to_string()), "x", "nothing here"));
}

#[test]
fn templates_fill_content_then_due_date() {
    assert_eq!(render_template("Do {content} by {due_date}", "taxes", "2025-04-15"), "Do taxes by 2025-04-15");
    assert_eq!(render_template("{content}", "{due_date}", "D"), "D");
}

#[test]
fn due_dates_follow_the_wording() {
    assert_eq!(due_offset_days("See you Next Week"), 7);
    assert_eq!(due_offset_days("tomorrow morning"), 1);
    assert_eq!(due_offset_days("today"), 0);
    let today = Ymd { year: 2024, month: 12, day: 28 };
    assert_eq!(inferred_due_date("exam next week", &today), Some("2025-01-04".to_string()));
    assert_eq!(inferred_due_date("call tomorrow", &today), Some("2024-12-29".to_string()));
}

#[test]
fn fallback_prefers_rules_then_keywords() {
    let rules = vec![OrchestrationRule {
        id: 1,
        name: "finance".to_string(),
        source_pattern: Some("bank".to_string()),
        keyword_pattern: None,
        action_type: "finance_review".to_string(),
        title_template: "Review: {content}".to_string(),
        note_template: Some("due {due_date}".to_string()),
        is_active: true,
    }];
    let plans = process_signal_fallback(&rules, &signal("Bank", "statement ready"), "statement ready", "2025-01-01");
    assert_eq!(plans.len(), 1);
    assert_eq!(plans[0].action_type, "finance_review");
    assert_eq!(plans[0].title, "Review: statement ready");
    assert_eq!(plans[0].due_date.as_deref(), Some("2025-01-01"));
    assert_eq!(plans[0].note.as_deref(), Some("due 2025-01-01"));

    let exam = process_signal_fallback(&rules, &signal("chat", "Exam on Monday"), "Exam on Monday", "2025-01-01");
    assert_eq!(exam.len(), 1);
    assert_eq!(exam[0].action_type, "schedule_preparation");

    let generic = process_signal_fallback(&Vec::new(), &signal("chat", "hello there"), "hello there", "d");
    assert_eq!(generic.len(), 1);
    assert_eq!(generic[0].action_type, "generic_follow_up");
    assert_eq!(generic[0].title, "Review signal and decide next action");
}

#[test]
fn fallback_groups_in_order() {
    assert_eq!(fallback_group("there is a bug"), fallback_group("new feature docs"));
    assert!(fallback_group("nothing at all") > fallback_group("weather forecast"));
}

#[test]
fn pending_actions_are_pending() {
    let plans = process_signal_fallback(&Vec::new(), &signal("chat", "weather"), "weather", "d");
    let a = pending_action(42, plans.into_iter().next().unwrap());
    assert_eq!(a.id, 42);
    assert_eq!(a.status, "pending");
    assert_eq!(a.action_type, "weather_check");
}

#[test]
fn signal_round_falls_back_when_agent_is_down() {
    let (p, c) = next_orchestration_step(OrchestrationPhase::Start, OrchestrationEvent::Begin);
    assert_eq!((p, c), (OrchestrationPhase::AwaitingHealth, OrchestrationCommand::ProbeHealth));
    let (p2, c2) = next_orchestration_step(p, OrchestrationEvent::Health(false));
    assert_eq!((p2, c2), (OrchestrationPhase::Finished, OrchestrationCommand::RunFallback));
    let (p3, c3) = next_orchestration_step(OrchestrationPhase::AwaitingHealth, OrchestrationEvent::Health(true));
    assert_eq!(c3, OrchestrationCommand::CallAgent);
    assert_eq!(next_orchestration_step(p3, OrchestrationEvent::AgentReply(true)).1, OrchestrationCommand::StoreAgentActions);
}

#[test]
fn agent_launch_gives_up_after_twenty_probes() {
    let (mut phase, cmd) = agent_launch_step(AgentLaunchPhase::Start, AgentLaunchEvent::Begin { running: false });
    assert_eq!(cmd, AgentLaunchCommand::LocateScript);
    phase = agent_launch_step(phase, AgentLaunchEvent::ScriptFound(true)).0;
    let (p, c) = agent_launch_step(phase, AgentLaunchEvent::Spawned(true));
    assert_eq!(c, AgentLaunchCommand::SleepHalfSecond);
    phase = p;
    let mut probes = 0;
    loop {
        phase = agent_launch_step(phase, AgentLaunchEvent::Slept).0;
        let (p, c) = agent_launch_step(phase, AgentLaunchEvent::Health(false));
        probes += 1;
        phase = p;
        if c == AgentLaunchCommand::ReportWarmingUp {
            break;
        }
        assert_eq!(c, AgentLaunchCommand::SleepHalfSecond);
    }
    assert_eq!(probes, 20);
    assert_eq!(phase, AgentLaunchPhase::Done);
}

#[test]
fn agent_already_running_is_reported() {
    let (p, c) = agent_launch_step(AgentLaunchPhase::Start, AgentLaunchEvent::Begin { running: true });
    assert_eq!(c, AgentLaunchCommand::ProbeHealth);
    assert_eq!(agent_launch_step(p, AgentLaunchEvent::Health(true)).1, AgentLaunchCommand::ReportAlreadyRunning);
    assert_eq!(
        agent_launch_step(AgentLaunchPhase::Locating, AgentLaunchEvent::ScriptFound(false)).1,
        AgentLaunchCommand::ReportScriptMissing
    );
}

fn rf(path: &str, n: i64) -> RelatedFile {
    RelatedFile { path: path.to_string(), name: path.to_string(), last_accessed: n, access_count: n }
}

#[test]
fn related_files_are_distinct_and_at_most_five() {
    let batches = vec![
        vec![rf("/a", 1), rf("/b", 2)],
        vec![rf("/a", 3), rf("/c", 4), rf("/d", 5)],
        vec![rf("/e", 6), rf("/f", 7)],
    ];
    let r = collect_related_files(&batches);
    let paths: Vec<&str> = r.iter().map(|f| f.path.as_str()).collect();
    assert_eq!(paths, vec!["/a", "/b", "/c", "/d", "/e"]);
    assert_eq!(r[0].access_count, 1);
}

#[test]
fn applying_actions_books_calendar_blocks() {
    let prep = plan_action_application("schedule_preparation", "Study", None, "2025-02-03");
    let ev = prep.calendar_event.unwrap();
    assert_eq!(ev.start_time, "2025-02-03 19:00");
    assert_eq!(ev.end_time, "2025-02-03 20:30");
    assert_eq!(ev.is_deep_work_block, 1);
    let cal = plan_action_application("calendar_event", "Sync", Some("2025-02-05".to_string()), "2025-02-03");
    let ev2 = cal.calendar_event.unwrap();
    assert_eq!(ev2.start_time, "2025-02-05 10:00");
    assert_eq!(ev2.is_deep_work_block, 0);
    let w = plan_action_application("weather_check", "W", None, "d");
    assert!(w.calendar_event.is_none());
    assert_eq!(w.widget_note.as_deref(), Some("→ Open the Daily Brief widget to act on this."));
    assert_eq!(annotate_note(&Some("n".to_string()), "h"), "n h");
}

#[test]
fn agent_settings_update_and_status() {
    let d = default_agent_settings();
    assert_eq!(d.agent_port, 8765);
    assert_eq!(d.python_executable, "python");
    let m = merge_agent_settings(
        &d,
        OrchestrationAgentSettingsInput {
            agent_port: Some(9000),
            auto_start: None,
            python_executable: Some("   ".to_string()),
            script_dir: Some("/opt/agent".to_string()),
            use_ai_provider: None,
            max_retries: Some(5),
        },
        77,
    );
    assert_eq!(m.agent_port, 9000);
    assert_eq!(m.python_executable, "python");
    assert_eq!(m.script_dir, "/opt/agent");
    assert_eq!(m.max_retries, 5);
    assert_eq!(m.updated_at, 77);
    let s = agent_status(true, 9000, m);
    assert!(s.running);
    assert!(s.uptime_ms.is_none());
    assert_eq!(agent_base_url(8765), "http://127.0.0.1:8765");
}

#[test]
fn url_encoding_keeps_unreserved_characters() {
    assert_eq!(urlencoding("a b&c=d~e"), "a%20b%26c%3Dd~e");
    assert_eq!(urlencoding("é"), "%C3%A9");
    assert_eq!(urlencoding("\u{1F600}"), "%F0%9F%98%80");
}

fn percent_decode(t: &str) -> String {
    let v: Vec<char> = t.chars().collect();
    let mut bytes: Vec<u8> = Vec::new();
    let mut i = 0;
    while i < v.len() {
        if v[i] == '%' && i + 2 < v.len() {
            let code = v[i + 1].to_digit(16).unwrap_or(0) * 16 + v[i + 2].to_digit(16).unwrap_or(0);
            bytes.push(code as u8);
            i += 3;
        } else {
            bytes.push(v[i] as u32 as u8);
            i += 1;
        }
    }
    String::from_utf8(bytes).unwrap()
}

#[test]
fn encodings_decode_back() {
    let text: String = (0u8..128).map(|b| b as char).chain("é€\u{1F600} ü".chars()).collect();
    let e = urlencoding(&text);
    assert!(e.chars().all(|c| c.is_ascii_alphanumeric() || "-_.~%".contains(c)));
    assert_eq!(percent_decode(&e), text);
    assert_eq!(urlencoding("\n"), "%0A");
    assert_eq!(urlencoding("€"), "%E2%82%AC");
}
