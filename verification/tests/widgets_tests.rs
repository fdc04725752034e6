use ai_assistance::text::replace;
use ai_assistance::widgets::{
    agent_url, breach_check_url, breach_result, dictionary_result, dictionary_url,
    exchange_rates_url, generate_password, holiday_from_fields, holidays_url, join,
    parse_network_trace, password_charset, password_length, render_markdown, sanitize_html,
    trace_path, traces_path, url_scan_result, weather_code_to_description, DefinitionFields,
    EntryFields, MeaningFields,
};

#[test]
fn weather_codes() {
    assert_eq!(weather_code_to_description(0), ("Clear sky", "☀️"));
    assert_eq!(weather_code_to_description(48), ("Fog", "🌫"));
    assert_eq!(weather_code_to_description(53), ("Drizzle", "🌦"));
    assert_eq!(weather_code_to_description(86), ("Snow showers", "🌨"));
    assert_eq!(weather_code_to_description(99), ("Thunderstorm w/ hail", "⛈"));
    assert_eq!(weather_code_to_description(4), ("Unknown", "❓"));
}

#[test]
fn holidays() {
    assert_eq!(holidays_url(2025, "de"), "https://date.nager.at/api/v3/PublicHolidays/2025/DE");
    let h = holiday_from_fields(Some("2025-12-25".to_string()), None, Some("Weihnachten".to_string()));
    assert_eq!(h.date, "2025-12-25");
    assert_eq!(h.name, "");
    assert_eq!(h.local_name, "Weihnachten");
}

#[test]
fn url_scan_verdicts() {
    let bad = url_scan_result("http://x".to_string(), Some("urlhaus_url_found".to_string()), Some(2));
    assert!(bad.is_malicious);
    assert_eq!(bad.threat_count, 2);
    assert_eq!(bad.message, "⚠️ URL flagged as malicious by URLhaus (2 report(s))");
    let ok = url_scan_result("http://y".to_string(), Some("no_results".to_string()), None);
    assert!(!ok.is_malicious);
    assert_eq!(ok.threat_count, 0);
    assert_eq!(ok.message, "✅ URL not found in URLhaus threat database");
}

#[test]
fn breach_reports() {
    assert_eq!(breach_check_url("a@b.c"), "https://emailrep.io/a@b.c");
    let names: Vec<Option<String>> = vec![
        Some("A".to_string()),
        None,
        Some("C".to_string()),
        Some("D".to_string()),
        Some("E".to_string()),
        Some("F".to_string()),
    ];
    let r = breach_result("a@b.c".to_string(), Some(6), names);
    assert_eq!(r.breach_count, 6);
    assert_eq!(r.breaches.len(), 5);
    assert_eq!(r.breaches[1].name, "Unknown");
    assert_eq!(r.breaches[4].name, "E");
    assert_eq!(r.message, "⚠️ Email found in 6 data breach(es)");
    let none = breach_result("z@z.z".to_string(), None, Vec::new());
    assert_eq!(none.breach_count, 0);
    assert_eq!(none.message, "✅ Email not found in any known breaches");
}

#[test]
fn network_trace() {
    let body = "fl=29f\nh=www.cloudflare.com\nip = 203.0.113.7 \r\nts=1\nloc=DE\ntls=TLSv1.3\nhttp=http/2\nasn\nasn=64500\nloc=FR";
    let n = parse_network_trace(body);
    assert_eq!(n.ip, "203.0.113.7");
    assert_eq!(n.country, "FR");
    assert_eq!(n.tls_version, "TLSv1.3");
    assert_eq!(n.http_protocol, "http/2");
    assert_eq!(n.asn, "64500");
    let e = parse_network_trace("");
    assert_eq!(e.ip, "");
    assert_eq!(parse_network_trace("ip=a=b\n").ip, "a=b");
}

#[test]
fn passwords() {
    assert_eq!(password_length(3), 8);
    assert_eq!(password_length(500), 128);
    assert_eq!(password_length(20), 20);
    assert_eq!(password_charset(false, false, false).len(), 26);
    assert_eq!(password_charset(true, true, true).len(), 88);
    let p = generate_password(16, false, true, false);
    assert_eq!(p.chars().count(), 16);
    assert!(p.chars().all(|c| c.is_ascii_lowercase() || c.is_ascii_digit()));
    assert_eq!(generate_password(0, true, true, true).chars().count(), 8);
}

#[test]
fn utility_addresses() {
    let syms = vec!["usd".to_string(), "JPY".to_string()];
    assert_eq!(join(&syms, ","), "usd,JPY");
    assert_eq!(join(&Vec::new(), ","), "");
    assert_eq!(exchange_rates_url("eur", &syms), "https://api.frankfurter.app/latest?from=EUR&to=usd,JPY");
    assert_eq!(agent_url(8765, "/traces?limit=15"), "http://127.0.0.1:8765/traces?limit=15");
    assert_eq!(traces_path(None), "/traces?limit=15");
    assert_eq!(traces_path(Some(3)), "/traces?limit=3");
    assert_eq!(trace_path("abc"), "/trace/abc");
    assert_eq!(dictionary_url("  serendipity "), "https://api.dictionaryapi.dev/api/v2/entries/en/serendipity");
}

fn def(d: &str) -> DefinitionFields {
    DefinitionFields { definition: Some(d.to_string()), example: None }
}

#[test]
fn dictionary_entries() {
    assert_eq!(dictionary_result("x", None).err(), Some("Word not found".to_string()));
    let entry = EntryFields {
        word: None,
        phonetic: Some("/test/".to_string()),
        meanings: Some(vec![
            MeaningFields { part_of_speech: Some("noun".to_string()), definitions: Some(vec![def("n1"), def("n2"), def("n3")]) },
            MeaningFields { part_of_speech: None, definitions: None },
            MeaningFields {
                part_of_speech: Some("verb".to_string()),
                definitions: Some(vec![DefinitionFields { definition: None, example: Some("ex".to_string()) }]),
            },
            MeaningFields { part_of_speech: Some("adj".to_string()), definitions: Some(vec![def("a1")]) },
        ]),
    };
    let r = dictionary_result("test", Some(entry)).unwrap();
    assert_eq!(r.word, "test");
    assert_eq!(r.phonetic, "/test/");
    let shown: Vec<(&str, &str, Option<&str>)> = r
        .definitions
        .iter()
        .map(|d| (d.part_of_speech.as_str(), d.definition.as_str(), d.example.as_deref()))
        .collect();
    assert_eq!(shown, vec![("noun", "n1", None), ("noun", "n2", None), ("verb", "", Some("ex"))]);
}

#[test]
fn markdown_is_rendered_and_scripts_escaped() {
    assert_eq!(render_markdown("# Hi"), "<h1>Hi</h1>\n");
    assert_eq!(render_markdown("*a* ~~b~~"), "<p><em>a</em> <del>b</del></p>\n");
    let html = render_markdown("<script>alert(1)</script>");
    assert!(!html.contains("<script"));
    assert!(html.contains("&lt;script"));
    assert_eq!(sanitize_html("<a href=\"javascript:x()\" onclick=y>"), "<a href=\"x()\" y>");
}

#[test]
fn a_tag_joined_by_the_removals_is_escaped_too() {
    assert_eq!(sanitize_html("<scrjavascript:ipt>"), "&lt;script>");
}

#[test]
fn script_tags_in_any_letter_case_are_escaped() {
    assert_eq!(sanitize_html("<SCRIPT>x"), "&lt;SCRIPT>x");
    assert_eq!(sanitize_html("</Script>"), "&lt;/Script>");
    assert_eq!(sanitize_html("<scripted"), "&lt;scripted");
    assert_eq!(sanitize_html("<b>a < script</b>"), "<b>a < script</b>");
    let html = render_markdown("<SCRIPT>alert(1)</SCRIPT>");
    assert!(!html.to_ascii_lowercase().contains("<script"));
    assert!(html.contains("&lt;SCRIPT>"));
}

#[test]
fn replacing_an_empty_pattern_matches_std() {
    assert_eq!(replace("ab", "", "x"), "ab".replace("", "x"));
    assert_eq!(replace("ab", "", "x"), "xaxbx");
    assert_eq!(replace("", "", "-"), "-");
    assert_eq!(replace("aXbXc", "X", "--"), "a--b--c");
}
