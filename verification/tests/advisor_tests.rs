use ai_assistance::advisor::{
    acknowledge_alert_record, active_alerts, card_due_alert_key, card_due_alert_title,
    days_until_due, digest_symbols, due_alert_severity, due_reminder_days, estimated_next_purchase,
    fallback_digest, financial_alert_summary, financial_alerts_signal, partition_watchlist,
    risk_alert_key, risk_alert_title, trigger_alert, watchlist_entry, week_label,
    weekly_planning_assistant, weekly_priorities, StoredAlert, WatchlistInput, WeeklyActionItem,
};
use ai_assistance::dates::Ymd;

fn alert(id: i64, severity: &str, last: i64) -> StoredAlert {
    trigger_alert(None, id, &format!("k{}", id), "t", "d", severity, "s", last)
}

#[test]
fn triggering_again_counts_and_reactivates() {
    let a = trigger_alert(None, 1, "monthly_spend_warning", "T", "D", "warning", "financial_manager", 100);
    assert_eq!(a.id, 1);
    assert_eq!(a.occurrences, 1);
    assert_eq!(a.status, "active");
    assert_eq!(a.first_triggered_at, 100);
    let acked = acknowledge_alert_record(&a, 150);
    assert_eq!(acked.status, "acknowledged");
    assert_eq!(acked.acknowledged_at, Some(150));
    assert!(active_alerts(&vec![acked.duplicate()]).is_empty());
    let again = trigger_alert(Some(&acked), 99, "monthly_spend_warning", "T2", "D2", "critical", "financial_manager", 200);
    assert_eq!(again.id, 1);
    assert_eq!(again.occurrences, 2);
    assert_eq!(again.first_triggered_at, 100);
    assert_eq!(again.last_triggered_at, 200);
    assert_eq!(again.status, "active");
    assert_eq!(again.acknowledged_at, None);
    assert_eq!(again.title, "T2");
    assert_eq!(active_alerts(&vec![again]).len(), 1);
}

#[test]
fn listing_is_by_urgency_then_recency() {
    let records = vec![
        alert(1, "info", 500),
        alert(2, "warning", 100),
        alert(3, "critical", 50),
        alert(4, "warning", 300),
        acknowledge_alert_record(&alert(5, "critical", 900), 901),
        alert(6, "critical", 60),
    ];
    let ids: Vec<i64> = active_alerts(&records).iter().map(|a| a.id).collect();
    assert_eq!(ids, vec![6, 3, 4, 2, 1]);
}

#[test]
fn acknowledged_alert_is_hidden_until_triggered_again() {
    let mut records = vec![alert(1, "warning", 10), alert(2, "critical", 20), alert(3, "info", 30)];
    records[1] = acknowledge_alert_record(&records[1], 25);
    let ids: Vec<i64> = active_alerts(&records).iter().map(|a| a.id).collect();
    assert_eq!(ids, vec![1, 3]);
    records[1] = trigger_alert(Some(&records[1]), 7, "k2", "t", "d", "critical", "s", 40);
    let ids: Vec<i64> = active_alerts(&records).iter().map(|a| a.id).collect();
    assert_eq!(ids, vec![2, 1, 3]);
}

#[test]
fn listing_stops_at_forty() {
    let records: Vec<StoredAlert> = (0..50).map(|i| alert(i, "info", i)).collect();
    let listed = active_alerts(&records);
    assert_eq!(listed.len(), 40);
    assert_eq!(listed[0].id, 49);
    assert_eq!(listed[39].id, 10);
}

#[test]
fn card_dues() {
    assert_eq!(due_alert_severity(3), "critical");
    assert_eq!(due_alert_severity(-2), "critical");
    assert_eq!(due_alert_severity(7), "warning");
    assert_eq!(due_alert_severity(8), "info");
    assert_eq!(card_due_alert_key("Chase Sapphire Card"), "card_due_chase_sapphire_card");
    assert_eq!(card_due_alert_title("Amex"), "Card due soon: Amex");
    let today = Ymd { year: 2025, month: 1, day: 1 };
    assert_eq!(days_until_due("2025-01-10", &today), 9);
    assert_eq!(days_until_due("2024-12-30", &today), -2);
    assert_eq!(days_until_due("soon", &today), 999);
    assert_eq!(due_reminder_days("2025-01-15", &today), Some(14));
    assert_eq!(due_reminder_days("2025-01-16", &today), None);
    assert_eq!(due_reminder_days("bad", &today), None);
}

#[test]
fn recurring_purchases() {
    assert_eq!(estimated_next_purchase("2024-01-15"), "2024-02-14");
    assert_eq!(estimated_next_purchase("2024-02-15"), "2024-03-16");
    assert_eq!(estimated_next_purchase("15/01/2024"), "unknown");
    assert_eq!(financial_alert_summary(2, 1), "2 recurring expenses tracked, 1 card dues within 14 days");
    assert_eq!(
        financial_alerts_signal("x", 2, 1),
        "Financial alerts: x. Recurring items: 2. Upcoming dues: 1"
    );
    assert_eq!(risk_alert_key("drawdown_pct"), "risk_engine_drawdown_pct");
    assert_eq!(risk_alert_title("Drawdown"), "Risk: Drawdown");
}

#[test]
fn digest() {
    assert_eq!(digest_symbols(None), vec!["NVDA", "MSFT", "AAPL"]);
    let many: Vec<String> = ["a", "b", "c", "d", "e", "f", "g"].iter().map(|s| s.to_string()).collect();
    assert_eq!(digest_symbols(Some(many)), vec!["A", "B", "C", "D", "E", "F"]);
    let m = fallback_digest("MSFT");
    assert_eq!(m.ticker, "MSFT");
    assert_eq!(m.sentiment, "Constructive");
    let o = fallback_digest("TSLA");
    assert_eq!(o.sentiment, "Watch");
    assert_eq!(o.headline, "Add to watchlist for live data tracking");
}

#[test]
fn weekly_plan() {
    assert_eq!(week_label(&Ymd { year: 2024, month: 12, day: 28 }), Some("2024-12-28 to 2025-01-04".to_string()));
    assert_eq!(weekly_priorities().len(), 3);
    let empty = weekly_planning_assistant("w".to_string(), Vec::new(), Vec::new());
    assert_eq!(empty.recommendation, "Queue is clear. Reserve one proactive planning block for upcoming priorities.");
    let busy = weekly_planning_assistant(
        "w".to_string(),
        Vec::new(),
        vec![WeeklyActionItem { title: "a".to_string(), due_date: None, action_type: "t".to_string() }],
    );
    assert!(busy.recommendation.starts_with("You have pending orchestrated tasks."));
    assert_eq!(busy.priorities[0], "Protect deep-work blocks before adding new meetings");
}

#[test]
fn watchlist() {
    let e = watchlist_entry(
        &WatchlistInput { symbol: "btc-usd".to_string(), name: None, asset_class: None, venue: None, notes: Some("n".to_string()) },
        3,
    );
    assert_eq!(e.symbol, "BTC-USD");
    assert_eq!(e.name, "");
    assert_eq!(e.asset_class, "equity");
    assert_eq!(e.venue, "yahoo");
    assert!(e.is_active);
    let mk = |s: &str, c: &str| watchlist_entry(
        &WatchlistInput { symbol: s.to_string(), name: None, asset_class: Some(c.to_string()), venue: None, notes: None },
        0,
    );
    let items = vec![mk("aapl", "equity"), mk("Bitcoin", "crypto"), mk("spy", "etf"), mk("eur", "fx")];
    let (eq, cr) = partition_watchlist(&items);
    assert_eq!(eq, vec!["AAPL", "SPY"]);
    assert_eq!(cr, vec!["bitcoin"]);
}
