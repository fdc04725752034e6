//! The advisor: the lifecycle of system alerts (triggered, re-triggered,
//! acknowledged, listed by urgency), card-due reminders, the stock digest,
//! the weekly planning view and the watchlist.
use vstd::prelude::*;
use crate::text::{
    concat2, concat3, decimal, decimal_spec, lit, lowercase_of, opt_view, replace, replace_spec,
    str_eq, strings_view, to_lowercase, to_uppercase, uppercase_of, signed_decimal,
    signed_decimal_spec, clone_opt,
};
use crate::dates::{Ymd, days_between, days_from_to, format_ymd, parse_ymd, parsed_date, shifted_date_text, shifted_text, ymd_text};

verus! {

broadcast use vstd::string::group_string_axioms;

// ─── Types ───────────────────────────────────────────────────────────────────

/// One line of the stock research digest.
pub struct StockDigestItem {
    pub ticker: String,
    pub headline: String,
    pub sentiment: String,
    pub action_hint: String,
}

/// A calendar entry of the coming week.
pub struct WeeklyCalendarItem {
    pub title: String,
    pub start_time: String,
    pub end_time: String,
}

/// A pending action of the coming week.
pub struct WeeklyActionItem {
    pub title: String,
    pub due_date: Option<String>,
    pub action_type: String,
}

/// The weekly planning view.
pub struct WeeklyPlanningAssistant {
    pub week_label: String,
    pub priorities: Vec<String>,
    pub calendar_items: Vec<WeeklyCalendarItem>,
    pub pending_actions: Vec<WeeklyActionItem>,
    pub recommendation: String,
}

/// An alert as the interface shows it.
pub struct SystemAlert {
    pub id: i64,
    pub title: String,
    pub detail: String,
    pub severity: String,
    pub source: String,
    pub status: String,
    pub occurrences: i64,
    pub last_triggered_at: i64,
}

/// An instrument on the watchlist.
pub struct WatchlistItem {
    pub id: i64,
    pub symbol: String,
    pub name: String,
    pub asset_class: String,
    pub venue: String,
    pub notes: Option<String>,
    pub is_active: bool,
}

/// An instrument to add to the watchlist.
pub struct WatchlistInput {
    pub symbol: String,
    pub name: Option<String>,
    pub asset_class: Option<String>,
    pub venue: Option<String>,
    pub notes: Option<String>,
}

/// A stored alert: one per key, with its history.
pub struct StoredAlert {
    pub id: i64,
    pub alert_key: String,
    pub title: String,
    pub detail: String,
    pub severity: String,
    pub source: String,
    pub status: String,
    pub first_triggered_at: i64,
    pub last_triggered_at: i64,
    pub occurrences: i64,
    pub acknowledged_at: Option<i64>,
}

impl StoredAlert {
    /// A field-by-field copy.
    pub fn duplicate(&self) -> (r: StoredAlert)
        ensures
            r == *self,
    {
        StoredAlert {
            id: self.id,
            alert_key: self.alert_key.clone(),
            title: self.title.clone(),
            detail: self.detail.clone(),
            severity: self.severity.clone(),
            source: self.source.clone(),
            status: self.status.clone(),
            first_triggered_at: self.first_triggered_at,
            last_triggered_at: self.last_triggered_at,
            occurrences: self.occurrences,
            acknowledged_at: self.acknowledged_at,
        }
    }

    /// The alert as shown: id, title, detail, severity, source, status,
    /// occurrences and last trigger time.
    pub open spec fn shown(self) -> (int, Seq<char>, Seq<char>, Seq<char>, Seq<char>, Seq<char>, int, int) {
        (
            self.id as int,
            self.title@,
            self.detail@,
            self.severity@,
            self.source@,
            self.status@,
            self.occurrences as int,
            self.last_triggered_at as int,
        )
    }

    /// Whether the alert is waiting for the user.
    pub open spec fn is_active(self) -> bool {
        self.status@ == "active"@
    }
}

impl SystemAlert {
    pub open spec fn shown(self) -> (int, Seq<char>, Seq<char>, Seq<char>, Seq<char>, Seq<char>, int, int) {
        (
            self.id as int,
            self.title@,
            self.detail@,
            self.severity@,
            self.source@,
            self.status@,
            self.occurrences as int,
            self.last_triggered_at as int,
        )
    }
}

// ─── The alert lifecycle ─────────────────────────────────────────────────────

/// The occurrence count after one more trigger (saturating at `i64::MAX`).
pub open spec fn next_occurrences(n: i64) -> int {
    if n == i64::MAX {
        i64::MAX as int
    } else {
        n + 1
    }
}

/// Records that the condition behind `alert_key` holds at `now`. A stored
/// alert of that key keeps its id and first trigger time, counts one more
/// occurrence and becomes active again (its acknowledgement cleared); with no
/// stored alert a new one is made with `new_id` and one occurrence. Title,
/// detail, severity and source are the new ones.
pub fn trigger_alert(
    existing: Option<&StoredAlert>,
    new_id: i64,
    alert_key: &str,
    title: &str,
    detail: &str,
    severity: &str,
    source: &str,
    now: i64,
) -> (r: StoredAlert)
    ensures
        r.alert_key@ == alert_key@,
        r.title@ == title@,
        r.detail@ == detail@,
        r.severity@ == severity@,
        r.source@ == source@,
        r.status@ == "active"@,
        r.last_triggered_at == now,
        r.acknowledged_at is None,
        match existing {
            Some(e) => r.id == e.id && r.first_triggered_at == e.first_triggered_at && r.occurrences
                == next_occurrences(e.occurrences),
            None => r.id == new_id && r.first_triggered_at == now && r.occurrences == 1,
        },
{
    let (id, first, occurrences) = match existing {
        Some(e) => {
            let n = if e.occurrences == i64::MAX {
                i64::MAX
            } else {
                e.occurrences + 1
            };
            (e.id, e.first_triggered_at, n)
        },
        None => (new_id, now, 1i64),
    };
    StoredAlert {
        id,
        alert_key: lit(alert_key),
        title: lit(title),
        detail: lit(detail),
        severity: lit(severity),
        source: lit(source),
        status: lit("active"),
        first_triggered_at: first,
        last_triggered_at: now,
        occurrences,
        acknowledged_at: None,
    }
}

/// The user has seen the alert: it is acknowledged at `now`, the rest kept.
pub fn acknowledge_alert_record(alert: &StoredAlert, now: i64) -> (r: StoredAlert)
    ensures
        r.status@ == "acknowledged"@,
        r.acknowledged_at == Some(now),
        r.id == alert.id,
        r.alert_key == alert.alert_key,
        r.title == alert.title,
        r.detail == alert.detail,
        r.severity == alert.severity,
        r.source == alert.source,
        r.first_triggered_at == alert.first_triggered_at,
        r.last_triggered_at == alert.last_triggered_at,
        r.occurrences == alert.occurrences,
{
    let mut r = alert.duplicate();
    r.status = lit("acknowledged");
    r.acknowledged_at = Some(now);
    r
}

/// Urgency of a severity: `critical` first, then `warning`, then the rest.
pub open spec fn severity_rank(s: Seq<char>) -> int {
    if s == "critical"@ {
        1
    } else if s == "warning"@ {
        2
    } else {
        3
    }
}

/// Whether `a` is listed before `b`: more urgent, or as urgent and triggered later.
pub open spec fn alert_before(a: StoredAlert, b: StoredAlert) -> bool {
    severity_rank(a.severity@) < severity_rank(b.severity@) || (severity_rank(a.severity@)
        == severity_rank(b.severity@) && a.last_triggered_at > b.last_triggered_at)
}

/// Where `x` goes in a list in order: after the last entry it does not come before.
pub open spec fn insert_pos(t: Seq<StoredAlert>, x: StoredAlert) -> int
    decreases t.len(),
{
    if t.len() == 0 {
        0
    } else if alert_before(x, t.last()) {
        insert_pos(t.drop_last(), x)
    } else {
        t.len() as int
    }
}

/// The alerts in listing order; alerts that tie keep their stored order.
pub open spec fn sort_alerts(s: Seq<StoredAlert>) -> Seq<StoredAlert>
    decreases s.len(),
{
    if s.len() == 0 {
        Seq::empty()
    } else {
        let t = sort_alerts(s.drop_last());
        t.insert(insert_pos(t, s.last()), s.last())
    }
}

/// The active alerts, in stored order.
pub open spec fn active_only(s: Seq<StoredAlert>) -> Seq<StoredAlert>
    decreases s.len(),
{
    if s.len() == 0 {
        Seq::empty()
    } else if s.last().is_active() {
        active_only(s.drop_last()).push(s.last())
    } else {
        active_only(s.drop_last())
    }
}

/// The most alerts listed at once.
pub const ACTIVE_ALERT_LIMIT: usize = 40;

/// The listed alerts: the active ones in listing order, at most forty.
pub open spec fn listed_alerts(s: Seq<StoredAlert>) -> Seq<StoredAlert> {
    let sorted = sort_alerts(active_only(s));
    if sorted.len() <= ACTIVE_ALERT_LIMIT {
        sorted
    } else {
        sorted.take(ACTIVE_ALERT_LIMIT as int)
    }
}

/// No entry comes before an earlier one.
pub open spec fn in_listing_order(s: Seq<StoredAlert>) -> bool {
    forall|i: int, j: int| 0 <= i < j < s.len() ==> !alert_before(#[trigger] s[j], #[trigger] s[i])
}

fn alert_before_exec(a: &StoredAlert, b: &StoredAlert) -> (r: bool)
    ensures
        r == alert_before(*a, *b),
{
    let ra = severity_rank_exec(&a.severity);
    let rb = severity_rank_exec(&b.severity);
    ra < rb || (ra == rb && a.last_triggered_at > b.last_triggered_at)
}

fn severity_rank_exec(s: &String) -> (r: u8)
    ensures
        r == severity_rank(s@),
{
    if str_eq(s.as_str(), "critical") {
        1
    } else if str_eq(s.as_str(), "warning") {
        2
    } else {
        3
    }
}

/// The active alerts for display: critical before warning before the rest,
/// the most recently triggered first within a severity, at most forty.
pub fn active_alerts(records: &Vec<StoredAlert>) -> (r: Vec<SystemAlert>)
    ensures
        r@.len() == listed_alerts(records@).len(),
        forall|i: int| 0 <= i < r@.len() ==> (#[trigger] r@[i]).shown() == listed_alerts(records@)[i].shown(),
{
    // the active records, in stored order
    let mut active: Vec<StoredAlert> = Vec::new();
    let mut i: usize = 0;
    assert(records@.take(0) =~= Seq::<StoredAlert>::empty());
    while i < records.len()
        invariant
            i <= records@.len(),
            active@ == active_only(records@.take(i as int)),
        decreases records@.len() - i,
    {
        assert(records@.take(i + 1).drop_last() =~= records@.take(i as int));
        assert(records@.take(i + 1).last() == records@[i as int]);
        if str_eq(records[i].status.as_str(), "active") {
            active.push(records[i].duplicate());
        }
        i = i + 1;
    }
    assert(records@.take(records@.len() as int) =~= records@);
    // insertion into listing order
    let mut sorted: Vec<StoredAlert> = Vec::new();
    let mut j: usize = 0;
    assert(active@.take(0) =~= Seq::<StoredAlert>::empty());
    while j < active.len()
        invariant
            j <= active@.len(),
            active@ == active_only(records@),
            sorted@ == sort_alerts(active@.take(j as int)),
        decreases active@.len() - j,
    {
        assert(active@.take(j + 1).drop_last() =~= active@.take(j as int));
        assert(active@.take(j + 1).last() == active@[j as int]);
        let x = active[j].duplicate();
        let mut k: usize = sorted.len();
        assert(sorted@.take(k as int) =~= sorted@);
        while k > 0 && alert_before_exec(&x, &sorted[k - 1])
            invariant
                k <= sorted@.len(),
                insert_pos(sorted@, x) == insert_pos(sorted@.take(k as int), x),
            decreases k,
        {
            assert(sorted@.take(k as int).drop_last() =~= sorted@.take(k - 1));
            assert(sorted@.take(k as int).last() == sorted@[k - 1]);
            k = k - 1;
        }
        proof {
            if k > 0 {
                assert(sorted@.take(k as int).last() == sorted@[k - 1]);
            }
        }
        sorted.insert(k, x);
        j = j + 1;
    }
    assert(active@.take(active@.len() as int) =~= active@);
    // at most forty, as shown
    let mut out: Vec<SystemAlert> = Vec::new();
    let mut m: usize = 0;
    let n = if sorted.len() < ACTIVE_ALERT_LIMIT {
        sorted.len()
    } else {
        ACTIVE_ALERT_LIMIT
    };
    while m < n
        invariant
            m <= n,
            n == listed_alerts(records@).len(),
            n <= sorted@.len(),
            sorted@ == sort_alerts(active_only(records@)),
            out@.len() == m,
            forall|q: int| 0 <= q < m ==> (#[trigger] out@[q]).shown() == listed_alerts(records@)[q].shown(),
        decreases n - m,
    {
        let a = &sorted[m];
        out.push(
            SystemAlert {
                id: a.id,
                title: a.title.clone(),
                detail: a.detail.clone(),
                severity: a.severity.clone(),
                source: a.source.clone(),
                status: a.status.clone(),
                occurrences: a.occurrences,
                last_triggered_at: a.last_triggered_at,
            },
        );
        m = m + 1;
    }
    out
}

// ─── Laws of the listing ─────────────────────────────────────────────────────

proof fn lemma_insert_in_order(t: Seq<StoredAlert>, x: StoredAlert)
    requires
        in_listing_order(t),
    ensures
        0 <= insert_pos(t, x) <= t.len(),
        in_listing_order(t.insert(insert_pos(t, x), x)),
        forall|i: int| insert_pos(t, x) <= i < t.len() ==> alert_before(x, #[trigger] t[i]),
        insert_pos(t, x) > 0 ==> !alert_before(x, t[insert_pos(t, x) - 1]),
    decreases t.len(),
{
    if t.len() > 0 {
        let r = t.drop_last();
        assert(in_listing_order(r)) by {
            assert forall|i: int, j: int| 0 <= i < j < r.len() implies !alert_before(#[trigger] r[j], #[trigger] r[i]) by {
                assert(r[i] == t[i] && r[j] == t[j]);
            }
        }
        lemma_insert_in_order(r, x);
        let p = insert_pos(t, x);
        if alert_before(x, t.last()) {
            assert forall|i: int| p <= i < t.len() implies alert_before(x, #[trigger] t[i]) by {
                if i < t.len() - 1 {
                    assert(t[i] == r[i]);
                }
            }
            if p > 0 {
                assert(t[p - 1] == r[p - 1]);
            }
        }
        let out = t.insert(p, x);
        assert forall|i: int, j: int| 0 <= i < j < out.len() implies !alert_before(#[trigger] out[j], #[trigger] out[i]) by {
            if j < p {
                assert(out[i] == t[i] && out[j] == t[j]);
            } else if j == p {
                // x after t[i] (i < p): t[i] does not come after t[p - 1], nor x before t[p - 1]
                assert(out[i] == t[i]);
                assert(!alert_before(x, t[p - 1]));
                if i < p - 1 {
                    assert(!alert_before(t[p - 1], t[i]));
                }
            } else if i == p {
                assert(out[j] == t[j - 1]);
                assert(alert_before(x, t[j - 1]));
            } else if i < p {
                assert(out[i] == t[i] && out[j] == t[j - 1]);
            } else {
                assert(out[i] == t[i - 1] && out[j] == t[j - 1]);
            }
        }
    }
}

proof fn lemma_sort_alerts(s: Seq<StoredAlert>)
    ensures
        in_listing_order(sort_alerts(s)),
        sort_alerts(s).len() == s.len(),
        forall|x: StoredAlert| sort_alerts(s).contains(x) <==> s.contains(x),
    decreases s.len(),
{
    if s.len() > 0 {
        let r = s.drop_last();
        lemma_sort_alerts(r);
        let t = sort_alerts(r);
        lemma_insert_in_order(t, s.last());
        let p = insert_pos(t, s.last());
        let out = t.insert(p, s.last());
        assert forall|x: StoredAlert| out.contains(x) <==> s.contains(x) by {
            if out.contains(x) {
                let k = choose|k: int| 0 <= k < out.len() && out[k] == x;
                if k < p {
                    assert(t[k] == x);
                    assert(t.contains(x));
                    assert(r.contains(x));
                    let q = choose|q: int| 0 <= q < r.len() && r[q] == x;
                    assert(s[q] == x);
                } else if k > p {
                    assert(t[k - 1] == x);
                    assert(t.contains(x));
                    assert(r.contains(x));
                    let q = choose|q: int| 0 <= q < r.len() && r[q] == x;
                    assert(s[q] == x);
                } else {
                    assert(s[s.len() - 1] == x);
                }
            }
            if s.contains(x) {
                let k = choose|k: int| 0 <= k < s.len() && s[k] == x;
                if k < s.len() - 1 {
                    assert(r[k] == x);
                    assert(r.contains(x));
                    let q = choose|q: int| 0 <= q < t.len() && t[q] == x;
                    if q < p {
                        assert(out[q] == x);
                    } else {
                        assert(out[q + 1] == x);
                    }
                } else {
                    assert(out[p] == x);
                }
            }
        }
    }
}

proof fn lemma_active_only(s: Seq<StoredAlert>)
    ensures
        forall|x: StoredAlert|
            #![trigger active_only(s).contains(x)]
            #![trigger s.contains(x)]
            active_only(s).contains(x) <==> s.contains(x) && x.is_active(),
    decreases s.len(),
{
    if s.len() == 0 {
        assert forall|x: StoredAlert|
            #![trigger active_only(s).contains(x)]
            #![trigger s.contains(x)]
            active_only(s).contains(x) <==> s.contains(x) && x.is_active() by {
            assert(active_only(s).len() == 0);
        }
    } else {
        let r = s.drop_last();
        lemma_active_only(r);
        let a = active_only(s);
        assert forall|x: StoredAlert|
            #![trigger active_only(s).contains(x)]
            #![trigger s.contains(x)]
            active_only(s).contains(x) <==> s.contains(x) && x.is_active() by {
            if a.contains(x) {
                let k = choose|k: int| 0 <= k < a.len() && a[k] == x;
                if k < active_only(r).len() {
                    assert(active_only(r)[k] == x);
                    assert(active_only(r).contains(x));
                    assert(r.contains(x));
                    let q = choose|q: int| 0 <= q < r.len() && r[q] == x;
                    assert(s[q] == x);
                } else {
                    assert(s[s.len() - 1] == x);
                }
            }
            if s.contains(x) && x.is_active() {
                let k = choose|k: int| 0 <= k < s.len() && s[k] == x;
                if k < s.len() - 1 {
                    assert(r[k] == x);
                    assert(active_only(r).contains(x));
                    let q = choose|q: int| 0 <= q < active_only(r).len() && active_only(r)[q] == x;
                    assert(a[q] == x);
                } else {
                    assert(a[a.len() - 1] == x);
                }
            }
        }
    }
}

/// What the alert list shows: only active alerts; critical before warning
/// before the rest and, within one severity, the most recently triggered
/// first; never more than forty; and every active alert when there are no
/// more than forty.
pub proof fn lemma_listed_alerts(records: Seq<StoredAlert>)
    ensures
        forall|i: int| 0 <= i < listed_alerts(records).len() ==> (#[trigger] listed_alerts(records)[i]).is_active()
            && records.contains(listed_alerts(records)[i]),
        in_listing_order(listed_alerts(records)),
        listed_alerts(records).len() <= ACTIVE_ALERT_LIMIT,
        active_only(records).len() <= ACTIVE_ALERT_LIMIT ==> forall|x: StoredAlert|
            records.contains(x) && x.is_active() ==> listed_alerts(records).contains(x),
{
    lemma_active_only(records);
    lemma_sort_alerts(active_only(records));
    let sorted = sort_alerts(active_only(records));
    let l = listed_alerts(records);
    assert forall|i: int| 0 <= i < l.len() implies (#[trigger] l[i]).is_active() && records.contains(l[i]) by {
        assert(l[i] == sorted[i]);
        assert(sorted.contains(sorted[i]));
        assert(active_only(records).contains(sorted[i]));
    }
    if active_only(records).len() <= ACTIVE_ALERT_LIMIT {
        assert(l == sorted);
        assert forall|x: StoredAlert| records.contains(x) && x.is_active() implies l.contains(x) by {
            assert(active_only(records).contains(x));
            assert(sorted.contains(x));
        }
    }
    assert forall|i: int, j: int| 0 <= i < j < l.len() implies !alert_before(#[trigger] l[j], #[trigger] l[i]) by {
        assert(l[i] == sorted[i] && l[j] == sorted[j]);
    }
}

/// Once an alert is acknowledged, no alert with its id is listed until its
/// condition triggers it again (stored alerts have distinct ids).
pub proof fn lemma_acknowledged_hidden(records: Seq<StoredAlert>, i: int, acked: StoredAlert)
    requires
        0 <= i < records.len(),
        forall|a: int, b: int|
            0 <= a < b < records.len() ==> #[trigger] records[a].id != #[trigger] records[b].id,
        acked.id == records[i].id,
        acked.status@ == "acknowledged"@,
    ensures
        forall|k: int|
            0 <= k < listed_alerts(records.update(i, acked)).len() ==> (#[trigger] listed_alerts(
                records.update(i, acked),
            )[k]).id != acked.id,
{
    reveal_strlit("acknowledged");
    reveal_strlit("active");
    let s = records.update(i, acked);
    lemma_listed_alerts(s);
    assert("acknowledged"@.len() != "active"@.len());
    assert forall|k: int| 0 <= k < listed_alerts(s).len() implies (#[trigger] listed_alerts(s)[k]).id
        != acked.id by {
        let x = listed_alerts(s)[k];
        assert(x.is_active() && s.contains(x));
        let m = choose|m: int| 0 <= m < s.len() && s[m] == x;
        if m == i {
            assert(x == acked);
        } else {
            assert(x == records[m]);
            if m < i {
                assert(records[m].id != records[i].id);
            } else {
                assert(records[i].id != records[m].id);
            }
        }
    }
}

/// An alert that its condition triggers again is listed again, when no more
/// than forty alerts are active.
pub proof fn lemma_retriggered_listed(records: Seq<StoredAlert>, i: int, again: StoredAlert)
    requires
        0 <= i < records.len(),
        again.status@ == "active"@,
        active_only(records.update(i, again)).len() <= ACTIVE_ALERT_LIMIT,
    ensures
        listed_alerts(records.update(i, again)).contains(again),
{
    let s = records.update(i, again);
    lemma_listed_alerts(s);
    assert(s[i] == again);
    assert(s.contains(again) && again.is_active());
}

// ─── Card dues and recurring purchases ───────────────────────────────────────

/// Severity of a card-due alert: critical within three days, warning within
/// seven, info otherwise.
pub open spec fn due_severity_spec(days_left: int) -> Seq<char> {
    if days_left <= 3 {
        "critical"@
    } else if days_left <= 7 {
        "warning"@
    } else {
        "info"@
    }
}

pub fn due_alert_severity(days_left: i64) -> (r: String)
    ensures
        r@ == due_severity_spec(days_left as int),
{
    if days_left <= 3 {
        lit("critical")
    } else if days_left <= 7 {
        lit("warning")
    } else {
        lit("info")
    }
}

/// The key of a card's due alert: `card_due_` and the card's name in lower
/// case with spaces turned into underscores.
pub fn card_due_alert_key(card_name: &str) -> (r: String)
    ensures
        r@ == "card_due_"@ + replace_spec(lowercase_of(card_name@), " "@, "_"@),
{
    let lower = to_lowercase(card_name);
    proof {
        reveal_strlit(" ");
    }
    let k = replace(lower.as_str(), " ", "_");
    concat2("card_due_", k.as_str())
}

/// The title of a card's due alert.
pub fn card_due_alert_title(card_name: &str) -> (r: String)
    ensures
        r@ == "Card due soon: "@ + card_name@,
{
    concat2("Card due soon: ", card_name)
}

/// Days from `today` to a `%Y-%m-%d` due date; 999 when the date does not parse.
pub open spec fn days_left_spec(due_date: Seq<char>, today: (int, int, int)) -> int {
    match parsed_date(due_date) {
        Some(d) => match days_from_to(d, today) {
            Some(n) => n,
            None => 999,
        },
        None => 999,
    }
}

pub fn days_until_due(due_date: &str, today: &Ymd) -> (r: i64)
    ensures
        r == days_left_spec(due_date@, today.triple()),
{
    match parse_ymd(due_date) {
        Some(d) => match days_between(&d, today) {
            Some(n) => n,
            None => 999,
        },
        None => 999,
    }
}

/// A card is reminded of when its due date is at most fourteen days away
/// (or past); the result is the days left.
pub fn due_reminder_days(due_date: &str, today: &Ymd) -> (r: Option<i64>)
    ensures
        r matches Some(n) ==> n == days_left_spec(due_date@, today.triple()),
        r is Some <==> days_left_spec(due_date@, today.triple()) <= 14,
{
    let n = days_until_due(due_date, today);
    if n <= 14 {
        Some(n)
    } else {
        None
    }
}

/// When a recurring purchase is next expected: thirty days after the last
/// one (`%Y-%m-%d`), or `unknown` when the last date does not parse.
pub open spec fn next_purchase_spec(last_date: Seq<char>) -> Seq<char> {
    match parsed_date(last_date) {
        Some(d) => match shifted_text(d, 30) {
            Some(t) => t,
            None => "unknown"@,
        },
        None => "unknown"@,
    }
}

pub fn estimated_next_purchase(last_date: &str) -> (r: String)
    ensures
        r@ == next_purchase_spec(last_date@),
{
    match parse_ymd(last_date) {
        Some(d) => match shifted_date_text(&d, 30) {
            Some(t) => t,
            None => lit("unknown"),
        },
        None => lit("unknown"),
    }
}

/// The one-line summary of the financial alerts.
pub fn financial_alert_summary(recurring: usize, dues: usize) -> (r: String)
    ensures
        r@ == decimal_spec(recurring as nat) + " recurring expenses tracked, "@ + decimal_spec(dues as nat)
            + " card dues within 14 days"@,
{
    let a = decimal(recurring as u128);
    let b = decimal(dues as u128);
    let mut r = concat3(a.as_str(), " recurring expenses tracked, ", b.as_str());
    r.append(" card dues within 14 days");
    r
}

/// The signal sent to the advisor queue with the financial alerts.
pub fn financial_alerts_signal(summary: &str, recurring: usize, dues: usize) -> (r: String)
    ensures
        r@ == "Financial alerts: "@ + summary@ + ". Recurring items: "@ + decimal_spec(recurring as nat)
            + ". Upcoming dues: "@ + decimal_spec(dues as nat),
{
    let a = decimal(recurring as u128);
    let b = decimal(dues as u128);
    let mut r = concat3("Financial alerts: ", summary, ". Recurring items: ");
    r.append(a.as_str());
    r.append(". Upcoming dues: ");
    r.append(b.as_str());
    r
}

/// The key of the alert of a risk rule.
pub fn risk_alert_key(rule_key: &str) -> (r: String)
    ensures
        r@ == "risk_engine_"@ + rule_key@,
{
    concat2("risk_engine_", rule_key)
}

/// The title of the alert of a risk rule.
pub fn risk_alert_title(rule_name: &str) -> (r: String)
    ensures
        r@ == "Risk: "@ + rule_name@,
{
    concat2("Risk: ", rule_name)
}

// ─── Stock digest ────────────────────────────────────────────────────────────

/// The symbols of the digest: the requested tickers (`NVDA`, `MSFT`, `AAPL`
/// when none are given), the first six, in upper case.
pub open spec fn digest_symbols_spec(tickers: Option<Seq<Seq<char>>>) -> Seq<Seq<char>> {
    let all = match tickers {
        Some(t) => t,
        None => seq!["NVDA"@, "MSFT"@, "AAPL"@],
    };
    let first = if all.len() <= 6 {
        all
    } else {
        all.take(6)
    };
    Seq::new(first.len(), |i: int| uppercase_of(first[i]))
}

pub fn digest_symbols(tickers: Option<Vec<String>>) -> (r: Vec<String>)
    ensures
        strings_view(r@) == digest_symbols_spec(
            match tickers {
                Some(t) => Some(strings_view(t@)),
                None => None,
            },
        ),
{
    let all = match tickers {
        Some(t) => t,
        None => vec![lit("NVDA"), lit("MSFT"), lit("AAPL")],
    };
    let ghost allv = strings_view(all@);
    let n = if all.len() <= 6 {
        all.len()
    } else {
        6
    };
    let mut out: Vec<String> = Vec::new();
    let mut i: usize = 0;
    while i < n
        invariant
            i <= n,
            n <= all@.len(),
            n == (if allv.len() <= 6 { allv.len() } else { 6 }),
            allv == strings_view(all@),
            out@.len() == i,
            forall|j: int| 0 <= j < i ==> (#[trigger] out@[j])@ == uppercase_of(allv[j]),
        decreases n - i,
    {
        out.push(to_uppercase(all[i].as_str()));
        i = i + 1;
    }
    proof {
        let first = if allv.len() <= 6 {
            allv
        } else {
            allv.take(6)
        };
        assert(strings_view(out@) =~= Seq::new(first.len(), |k: int| uppercase_of(first[k])));
    }
    out
}

/// The digest line of a symbol with no cached quote.
pub open spec fn fallback_digest_spec(upper: Seq<char>) -> (Seq<char>, Seq<char>, Seq<char>) {
    if upper == "NVDA"@ {
        (
            "Datacenter expansion narrative remains intact"@,
            "Bullish"@,
            "Review earnings date and protect gains plan"@,
        )
    } else if upper == "MSFT"@ {
        (
            "Enterprise demand stable with AI product attach growth"@,
            "Constructive"@,
            "Track cloud guidance revision next quarter"@,
        )
    } else if upper == "AAPL"@ {
        (
            "Hardware cycle mixed while services momentum continues"@,
            "Neutral"@,
            "Watch gross margin trend and product event timing"@,
        )
    } else {
        ("Add to watchlist for live data tracking"@, "Watch"@, "Add alert rule and attach notes before decision"@)
    }
}

pub fn fallback_digest(upper: &str) -> (r: StockDigestItem)
    ensures
        r.ticker@ == upper@,
        (r.headline@, r.sentiment@, r.action_hint@) == fallback_digest_spec(upper@),
{
    let (h, s, a) = if str_eq(upper, "NVDA") {
        (
            "Datacenter expansion narrative remains intact",
            "Bullish",
            "Review earnings date and protect gains plan",
        )
    } else if str_eq(upper, "MSFT") {
        (
            "Enterprise demand stable with AI product attach growth",
            "Constructive",
            "Track cloud guidance revision next quarter",
        )
    } else if str_eq(upper, "AAPL") {
        (
            "Hardware cycle mixed while services momentum continues",
            "Neutral",
            "Watch gross margin trend and product event timing",
        )
    } else {
        ("Add to watchlist for live data tracking", "Watch", "Add alert rule and attach notes before decision")
    };
    StockDigestItem { ticker: lit(upper), headline: lit(h), sentiment: lit(s), action_hint: lit(a) }
}

// ─── Weekly planning ─────────────────────────────────────────────────────────

/// `today to today+7` in `%Y-%m-%d`; none when the end date is out of range.
pub fn week_label(today: &Ymd) -> (r: Option<String>)
    ensures
        r is None <==> shifted_text(today.triple(), 7) is None,
        r matches Some(l) ==> l@ == ymd_text(today.year as int, today.month as int, today.day as int) + " to "@
            + shifted_text(today.triple(), 7)->0,
{
    let start = format_ymd(today);
    match shifted_date_text(today, 7) {
        Some(end) => Some(concat3(start.as_str(), " to ", end.as_str())),
        None => None,
    }
}

/// The standing priorities of the week.
pub fn weekly_priorities() -> (r: Vec<String>)
    ensures
        strings_view(r@) == seq![
            "Protect deep-work blocks before adding new meetings"@,
            "Apply high-impact pending actions with near-term due dates"@,
            "Convert important comms into calendar events + prep notes"@,
        ],
{
    let r = vec![
        lit("Protect deep-work blocks before adding new meetings"),
        lit("Apply high-impact pending actions with near-term due dates"),
        lit("Convert important comms into calendar events + prep notes"),
    ];
    assert(strings_view(r@) =~= seq![r@[0]@, r@[1]@, r@[2]@]);
    r
}

/// The week's recommendation: clear the queue first when actions are pending.
pub open spec fn weekly_recommendation_spec(has_pending: bool) -> Seq<char> {
    if has_pending {
        "You have pending orchestrated tasks. Apply urgent actions first, then lock calendar slots."@
    } else {
        "Queue is clear. Reserve one proactive planning block for upcoming priorities."@
    }
}

/// The weekly planning view of the week's calendar items and pending actions.
pub fn weekly_planning_assistant(
    week_label: String,
    calendar_items: Vec<WeeklyCalendarItem>,
    pending_actions: Vec<WeeklyActionItem>,
) -> (r: WeeklyPlanningAssistant)
    ensures
        r.week_label == week_label,
        r.calendar_items == calendar_items,
        r.pending_actions == pending_actions,
        strings_view(r.priorities@) == seq![
            "Protect deep-work blocks before adding new meetings"@,
            "Apply high-impact pending actions with near-term due dates"@,
            "Convert important comms into calendar events + prep notes"@,
        ],
        r.recommendation@ == weekly_recommendation_spec(pending_actions@.len() > 0),
{
    let recommendation = if pending_actions.len() == 0 {
        lit("Queue is clear. Reserve one proactive planning block for upcoming priorities.")
    } else {
        lit("You have pending orchestrated tasks. Apply urgent actions first, then lock calendar slots.")
    };
    WeeklyPlanningAssistant { week_label, priorities: weekly_priorities(), calendar_items, pending_actions, recommendation }
}

// ─── Watchlist ───────────────────────────────────────────────────────────────

/// The watchlist entry stored for an input: symbol in upper case, name empty
/// when absent, asset class `equity` and venue `yahoo` by default, active.
pub fn watchlist_entry(input: &WatchlistInput, id: i64) -> (r: WatchlistItem)
    ensures
        r.id == id,
        r.symbol@ == uppercase_of(input.symbol@),
        r.name@ == match input.name {
            Some(n) => n@,
            None => Seq::<char>::empty(),
        },
        r.asset_class@ == match input.asset_class {
            Some(a) => a@,
            None => "equity"@,
        },
        r.venue@ == match input.venue {
            Some(v) => v@,
            None => "yahoo"@,
        },
        opt_view(r.notes) == opt_view(input.notes),
        r.is_active,
{
    WatchlistItem {
        id,
        symbol: to_uppercase(input.symbol.as_str()),
        name: match &input.name {
            Some(n) => n.clone(),
            None => String::new(),
        },
        asset_class: match &input.asset_class {
            Some(a) => a.clone(),
            None => lit("equity"),
        },
        venue: match &input.venue {
            Some(v) => v.clone(),
            None => lit("yahoo"),
        },
        notes: clone_opt(&input.notes),
        is_active: true,
    }
}

/// The symbols quoted by the equity source (asset class `equity` or `etf`,
/// as stored) and by the crypto source (`crypto`, in lower case), in order.
pub open spec fn equity_symbols(rows: Seq<(Seq<char>, Seq<char>)>) -> Seq<Seq<char>>
    decreases rows.len(),
{
    if rows.len() == 0 {
        Seq::empty()
    } else if rows.last().1 == "equity"@ || rows.last().1 == "etf"@ {
        equity_symbols(rows.drop_last()).push(rows.last().0)
    } else {
        equity_symbols(rows.drop_last())
    }
}

pub open spec fn crypto_symbols(rows: Seq<(Seq<char>, Seq<char>)>) -> Seq<Seq<char>>
    decreases rows.len(),
{
    if rows.len() == 0 {
        Seq::empty()
    } else if rows.last().1 == "crypto"@ {
        crypto_symbols(rows.drop_last()).push(lowercase_of(rows.last().0))
    } else {
        crypto_symbols(rows.drop_last())
    }
}

/// The symbol and asset class of each active watchlist row.
pub open spec fn class_rows(items: Seq<WatchlistItem>) -> Seq<(Seq<char>, Seq<char>)> {
    Seq::new(items.len(), |i: int| (items[i].symbol@, items[i].asset_class@))
}

/// Splits the active watchlist between the two quote sources.
pub fn partition_watchlist(items: &Vec<WatchlistItem>) -> (r: (Vec<String>, Vec<String>))
    ensures
        strings_view(r.0@) == equity_symbols(class_rows(items@)),
        strings_view(r.1@) == crypto_symbols(class_rows(items@)),
{
    let ghost rows = class_rows(items@);
    let mut eq: Vec<String> = Vec::new();
    let mut cr: Vec<String> = Vec::new();
    let mut i: usize = 0;
    assert(rows.take(0) =~= Seq::<(Seq<char>, Seq<char>)>::empty());
    while i < items.len()
        invariant
            i <= items@.len(),
            rows == class_rows(items@),
            strings_view(eq@) == equity_symbols(rows.take(i as int)),
            strings_view(cr@) == crypto_symbols(rows.take(i as int)),
        decreases items@.len() - i,
    {
        assert(rows.take(i + 1).drop_last() =~= rows.take(i as int));
        assert(rows.take(i + 1).last() == rows[i as int]);
        let it = &items[i];
        let ac = it.asset_class.as_str();
        proof {
            reveal_strlit("equity");
            reveal_strlit("etf");
            reveal_strlit("crypto");
            assert("equity"@[0] != "crypto"@[0]);
        }
        if str_eq(ac, "equity") || str_eq(ac, "etf") {
            let ghost before = eq@;
            eq.push(it.symbol.clone());
            assert(strings_view(eq@) =~= strings_view(before).push(it.symbol@));
        } else if str_eq(ac, "crypto") {
            let ghost before = cr@;
            cr.push(to_lowercase(it.symbol.as_str()));
            assert(strings_view(cr@) =~= strings_view(before).push(lowercase_of(it.symbol@)));
        }
        i = i + 1;
    }
    assert(rows.take(rows.len() as int) =~= rows);
    (eq, cr)
}

} // verus!
