//! Orchestration: turning signals into planned actions (user rules first,
//! keyword fallbacks second), applying actions, agent settings and the
//! helpers the agent calls use.
use vstd::prelude::*;
use vstd::utf8::{decode_utf8, encode_utf8};
use crate::text::{
    chars_of, concat2, contains, contains_spec, decimal, decimal_spec, is_alnum_spec,
    is_ascii_alnum, is_blank, is_blank_spec, lit, lowercase_of, opt_view, clone_opt, replace,
    replace_spec, str_eq, string_from_chars, strings_view, to_lowercase,
};
use crate::dates::{Ymd, shifted_date_text, shifted_text};
use crate::sensitive::{scan_and_redact, scan_outcome, passes_spec, SensitiveScanResult};

verus! {

broadcast use vstd::string::group_string_axioms;

// ─── Types ───────────────────────────────────────────────────────────────────

/// A signal handed to the orchestrator (a message, a note, a finance digest...).
pub struct OrchestrationSignalInput {
    pub source: String,
    pub content: String,
    pub metadata: Option<String>,
}

/// A file from the access history that relates to a signal.
pub struct RelatedFile {
    pub path: String,
    pub name: String,
    pub last_accessed: i64,
    pub access_count: i64,
}

/// A queued action.
pub struct OrchestrationAction {
    pub id: i64,
    pub action_type: String,
    pub title: String,
    pub due_date: Option<String>,
    pub status: String,
    pub note: Option<String>,
}

/// A user automation rule.
pub struct OrchestrationRule {
    pub id: i64,
    pub name: String,
    pub source_pattern: Option<String>,
    pub keyword_pattern: Option<String>,
    pub action_type: String,
    pub title_template: String,
    pub note_template: Option<String>,
    pub is_active: bool,
}

/// A rule as the user enters it.
pub struct OrchestrationRuleInput {
    pub name: String,
    pub source_pattern: Option<String>,
    pub keyword_pattern: Option<String>,
    pub action_type: String,
    pub title_template: String,
    pub note_template: Option<String>,
}

/// Settings of the orchestration agent sidecar.
pub struct OrchestrationAgentSettings {
    pub agent_port: u16,
    pub auto_start: bool,
    pub python_executable: String,
    pub script_dir: String,
    pub use_ai_provider: bool,
    pub max_retries: u8,
    pub updated_at: i64,
}

/// A partial update of the agent settings.
pub struct OrchestrationAgentSettingsInput {
    pub agent_port: Option<u16>,
    pub auto_start: Option<bool>,
    pub python_executable: Option<String>,
    pub script_dir: Option<String>,
    pub use_ai_provider: Option<bool>,
    pub max_retries: Option<u8>,
}

/// Status of the agent sidecar.
pub struct AgentStatus {
    pub running: bool,
    pub port: u16,
    pub uptime_ms: Option<u64>,
    pub settings: OrchestrationAgentSettings,
}

/// Statistics of the agent's vector memory.
pub struct VectorMemoryStats {
    pub available: bool,
    pub point_count: u64,
    pub vector_count: u64,
    pub message: Option<String>,
}

/// Outcome of running code in the agent's sandbox.
pub struct SandboxResult {
    pub available: bool,
    pub stdout: Option<String>,
    pub stderr: Option<String>,
    pub error: Option<String>,
    pub message: Option<String>,
}

/// Which optional integrations the agent offers.
pub struct IntegrationCapabilities {
    pub qdrant: bool,
    pub e2b: bool,
    pub data_juicer: bool,
    pub langfuse: bool,
}

/// An action decided for a signal, before it is stored.
pub struct PlannedAction {
    pub action_type: String,
    pub title: String,
    pub due_date: Option<String>,
    pub note: Option<String>,
}

pub type PlanView = (Seq<char>, Seq<char>, Option<Seq<char>>, Option<Seq<char>>);

impl PlannedAction {
    pub open spec fn view_tuple(&self) -> PlanView {
        (self.action_type@, self.title@, opt_view(self.due_date), opt_view(self.note))
    }
}

pub open spec fn plans_view(v: Seq<PlannedAction>) -> Seq<PlanView> {
    Seq::new(v.len(), |i: int| v[i].view_tuple())
}

// ─── Keywords ────────────────────────────────────────────────────────────────

/// `str::split` on characters that are not ASCII letters or digits: the
/// pieces between separators, empty ones included (n separators, n+1 pieces).
pub open spec fn split_nonalnum(s: Seq<char>) -> Seq<Seq<char>>
    decreases s.len(),
{
    if s.len() == 0 {
        seq![Seq::<char>::empty()]
    } else {
        let ps = split_nonalnum(s.drop_last());
        if is_alnum_spec(s.last()) {
            ps.update(ps.len() - 1, ps.last().push(s.last()))
        } else {
            ps.push(Seq::<char>::empty())
        }
    }
}

proof fn lemma_split_nonempty(s: Seq<char>)
    ensures
        split_nonalnum(s).len() >= 1,
    decreases s.len(),
{
    if s.len() > 0 {
        lemma_split_nonempty(s.drop_last());
    }
}

/// One piece considered by keyword extraction: pieces shorter than four
/// characters are skipped, new ones are kept, and extraction stops at eight.
pub open spec fn keyword_step(acc: (Seq<Seq<char>>, bool), part: Seq<char>) -> (
    Seq<Seq<char>>,
    bool,
) {
    if acc.1 || part.len() < 4 {
        acc
    } else {
        let kw = if acc.0.contains(part) {
            acc.0
        } else {
            acc.0.push(part)
        };
        (kw, kw.len() >= 8)
    }
}

pub open spec fn keyword_fold(parts: Seq<Seq<char>>) -> (Seq<Seq<char>>, bool)
    decreases parts.len(),
{
    if parts.len() == 0 {
        (Seq::empty(), false)
    } else {
        keyword_step(keyword_fold(parts.drop_last()), parts.last())
    }
}

/// The keywords of a text: its lowercase alphanumeric words of four or more
/// characters (they are ASCII, so characters and bytes agree), first
/// occurrences only, at most eight.
pub open spec fn keywords_spec(content: Seq<char>) -> Seq<Seq<char>> {
    keyword_fold(split_nonalnum(lowercase_of(content))).0
}

/// Keyword extraction keeps distinct words of four or more characters, at
/// most eight of them.
pub proof fn lemma_keywords_shape(content: Seq<char>)
    ensures
        keywords_spec(content).len() <= 8,
        forall|i: int| 0 <= i < keywords_spec(content).len() ==> (#[trigger] keywords_spec(content)[i]).len() >= 4,
        forall|i: int, j: int|
            0 <= i < j < keywords_spec(content).len() ==> keywords_spec(content)[i] != keywords_spec(content)[j],
{
    lemma_keyword_fold_shape(split_nonalnum(lowercase_of(content)));
}

proof fn lemma_keyword_fold_shape(parts: Seq<Seq<char>>)
    ensures
        keyword_fold(parts).0.len() <= 8,
        keyword_fold(parts).1 <==> keyword_fold(parts).0.len() >= 8,
        forall|i: int| 0 <= i < keyword_fold(parts).0.len() ==> (#[trigger] keyword_fold(parts).0[i]).len() >= 4,
        forall|i: int, j: int|
            0 <= i < j < keyword_fold(parts).0.len() ==> keyword_fold(parts).0[i] != keyword_fold(parts).0[j],
    decreases parts.len(),
{
    if parts.len() > 0 {
        lemma_keyword_fold_shape(parts.drop_last());
        let acc = keyword_fold(parts.drop_last());
        let part = parts.last();
        if !acc.1 && part.len() >= 4 && !acc.0.contains(part) {
            let kw = acc.0.push(part);
            assert forall|i: int, j: int| 0 <= i < j < kw.len() implies kw[i] != kw[j] by {
                if j == kw.len() - 1 {
                    assert(kw[i] == acc.0[i]);
                    if kw[i] == part {
                        assert(acc.0.contains(part));
                    }
                } else {
                    assert(kw[i] == acc.0[i] && kw[j] == acc.0[j]);
                }
            }
            assert forall|i: int| 0 <= i < kw.len() implies (#[trigger] kw[i]).len() >= 4 by {
                if i < kw.len() - 1 {
                    assert(kw[i] == acc.0[i]);
                }
            }
        }
    }
}

fn keyword_take(keywords: &mut Vec<String>, done: &mut bool, part: &Vec<char>)
    ensures
        (strings_view(final(keywords)@), *final(done)) == keyword_step(
            (strings_view(old(keywords)@), *old(done)),
            part@,
        ),
{
    if *done || part.len() < 4 {
        return;
    }
    let word = string_from_chars(part.as_slice());
    let mut i: usize = 0;
    let mut seen = false;
    while i < keywords.len()
        invariant
            word@ == part@,
            i <= keywords@.len(),
            seen <==> exists|j: int| 0 <= j < i && keywords@[j]@ == part@,
        decreases keywords@.len() - i,
    {
        if keywords[i] == word {
            seen = true;
        }
        i = i + 1;
    }
    proof {
        let sv = strings_view(keywords@);
        if seen {
            let j = choose|j: int| 0 <= j < keywords@.len() && keywords@[j]@ == part@;
            assert(sv[j] == part@);
            assert(sv.contains(part@));
        } else {
            assert forall|j: int| 0 <= j < sv.len() implies sv[j] != part@ by {
                assert(sv[j] == keywords@[j]@);
            }
            assert(!sv.contains(part@));
        }
    }
    if !seen {
        keywords.push(word);
        assert(strings_view(keywords@) =~= strings_view(old(keywords)@).push(part@));
    }
    *done = keywords.len() >= 8;
}

/// Extracts up to eight distinct lowercase keywords (four characters or
/// more) from a text.
pub fn extract_keywords(content: &str) -> (r: Vec<String>)
    ensures
        strings_view(r@) == keywords_spec(content@),
{
    let lower = to_lowercase(content);
    let v = chars_of(lower.as_str());
    let mut keywords: Vec<String> = Vec::new();
    let mut done = false;
    let mut cur: Vec<char> = Vec::new();
    let mut i: usize = 0;
    assert(v@.take(0) =~= Seq::<char>::empty());
    proof {
        assert(split_nonalnum(Seq::<char>::empty()).drop_last() =~= Seq::<Seq<char>>::empty());
    }
    while i < v.len()
        invariant
            i <= v@.len(),
            split_nonalnum(v@.take(i as int)).len() >= 1,
            split_nonalnum(v@.take(i as int)).last() == cur@,
            keyword_fold(split_nonalnum(v@.take(i as int)).drop_last()) == (
                strings_view(keywords@),
                done,
            ),
        decreases v@.len() - i,
    {
        let c = v[i];
        let ghost pre = v@.take(i as int);
        let ghost ps = split_nonalnum(pre);
        proof {
            assert(v@.take(i + 1).drop_last() =~= pre);
            assert(v@.take(i + 1).last() == c);
        }
        if is_ascii_alnum(c) {
            cur.push(c);
            proof {
                let ps2 = split_nonalnum(v@.take(i + 1));
                assert(ps2 == ps.update(ps.len() - 1, ps.last().push(c)));
                assert(ps2.drop_last() =~= ps.drop_last());
            }
        } else {
            keyword_take(&mut keywords, &mut done, &cur);
            proof {
                let ps2 = split_nonalnum(v@.take(i + 1));
                assert(ps2 == ps.push(Seq::<char>::empty()));
                assert(ps2.drop_last() =~= ps);
                assert(ps.drop_last().push(ps.last()) =~= ps);
            }
            cur = Vec::new();
        }
        i = i + 1;
    }
    keyword_take(&mut keywords, &mut done, &cur);
    proof {
        assert(v@.take(v@.len() as int) =~= v@);
        let ps = split_nonalnum(v@);
        assert(ps.drop_last().push(ps.last()) =~= ps);
    }
    keywords
}

// ─── Rules ───────────────────────────────────────────────────────────────────

/// A rule pattern matches when it is absent or blank, or when its lowercase
/// form occurs in the (already lowercase) text.
pub open spec fn pattern_matches(pattern: Option<Seq<char>>, hay: Seq<char>) -> bool {
    match pattern {
        Some(p) => if !is_blank_spec(p) {
            contains_spec(hay, lowercase_of(p))
        } else {
            true
        },
        None => true,
    }
}

fn pattern_hits(pattern: &Option<String>, hay: &str) -> (r: bool)
    ensures
        r == pattern_matches(opt_view(*pattern), hay@),
{
    match pattern {
        Some(p) => {
            if !is_blank(p.as_str()) {
                let lower = to_lowercase(p.as_str());
                contains(hay, lower.as_str())
            } else {
                true
            }
        },
        None => true,
    }
}

/// Whether a rule's source and keyword patterns both match a signal.
pub fn matches_rule(
    rule_source: &Option<String>,
    rule_keyword: &Option<String>,
    signal_source: &str,
    signal_content: &str,
) -> (r: bool)
    ensures
        r == (pattern_matches(opt_view(*rule_source), signal_source@) && pattern_matches(
            opt_view(*rule_keyword),
            signal_content@,
        )),
{
    let source_match = pattern_hits(rule_source, signal_source);
    let keyword_match = pattern_hits(rule_keyword, signal_content);
    source_match && keyword_match
}

/// A template with `{content}` and then `{due_date}` replaced.
pub open spec fn render_spec(template: Seq<char>, content: Seq<char>, due_date: Seq<char>) -> Seq<
    char,
> {
    replace_spec(replace_spec(template, "{content}"@, content), "{due_date}"@, due_date)
}

/// Fills `{content}` and `{due_date}` into a template.
pub fn render_template(template: &str, content: &str, due_date: &str) -> (r: String)
    ensures
        r@ == render_spec(template@, content@, due_date@),
{
    proof {
        reveal_strlit("{content}");
        reveal_strlit("{due_date}");
    }
    let step = replace(template, "{content}", content);
    replace(step.as_str(), "{due_date}", due_date)
}

// ─── Due dates ───────────────────────────────────────────────────────────────

/// Days ahead that a signal's wording asks for: a week for "next week", one
/// for "tomorrow", none otherwise.
pub open spec fn due_offset_spec(content: Seq<char>) -> int {
    let n = lowercase_of(content);
    if contains_spec(n, "next week"@) {
        7
    } else if contains_spec(n, "tomorrow"@) {
        1
    } else {
        0
    }
}

pub fn due_offset_days(content: &str) -> (r: i64)
    ensures
        r == due_offset_spec(content@),
{
    let n = to_lowercase(content);
    if contains(n.as_str(), "next week") {
        7
    } else if contains(n.as_str(), "tomorrow") {
        1
    } else {
        0
    }
}

/// The due date a signal implies, counted from `today`, in `%Y-%m-%d`
/// notation; `None` where chrono cannot represent the date.
pub fn inferred_due_date(content: &str, today: &Ymd) -> (r: Option<String>)
    ensures
        r is None <==> shifted_text(today.triple(), due_offset_spec(content@)) is None,
        r matches Some(s) ==> shifted_text(today.triple(), due_offset_spec(content@)) == Some(
            s@,
        ),
{
    let days = due_offset_days(content);
    shifted_date_text(today, days)
}

// ─── Fallback plan ───────────────────────────────────────────────────────────

pub const FALLBACK_GROUPS: usize = 7;

/// Number of keywords in fallback group `k`.
pub open spec fn fallback_word_count(k: nat) -> nat {
    if k == 0 {
        2
    } else if k == 1 {
        4
    } else if k == 2 {
        4
    } else if k == 3 {
        5
    } else if k == 4 {
        5
    } else if k == 5 {
        3
    } else {
        7
    }
}

fn fallback_word_count_exec(k: usize) -> (r: usize)
    requires
        k < FALLBACK_GROUPS,
    ensures
        r == fallback_word_count(k as nat),
{
    if k == 0 {
        2
    } else if k == 1 {
        4
    } else if k == 2 {
        4
    } else if k == 3 {
        5
    } else if k == 4 {
        5
    } else if k == 5 {
        3
    } else {
        7
    }
}

/// Keyword `j` of fallback group `k`.
pub open spec fn fallback_word(k: nat, j: nat) -> Seq<char> {
    if k == 0 {
        if j == 0 { "exam"@ } else { "test"@ }
    } else if k == 1 {
        if j == 0 { "coding"@ } else if j == 1 { "bug"@ } else if j == 2 { "feature"@ } else { "docs"@ }
    } else if k == 2 {
        if j == 0 { "whatsapp"@ } else if j == 1 { "message"@ } else if j == 2 { "meeting"@ } else { "call"@ }
    } else if k == 3 {
        if j == 0 { "url"@ } else if j == 1 { "link"@ } else if j == 2 { "phish"@ } else if j == 3 { "malware"@ } else { "suspicious"@ }
    } else if k == 4 {
        if j == 0 { "password"@ } else if j == 1 { "credential"@ } else if j == 2 { "breach"@ } else if j == 3 { "leak"@ } else { "exposed"@ }
    } else if k == 5 {
        if j == 0 { "weather"@ } else if j == 1 { "holiday"@ } else { "forecast"@ }
    } else {
        if j == 0 { "exchange"@ } else if j == 1 { "currency"@ } else if j == 2 { "rate"@ } else if j == 3 { "convert"@ } else if j == 4 { "define"@ } else if j == 5 { "meaning"@ } else { "definition"@ }
    }
}

fn fallback_word_str(k: usize, j: usize) -> (r: &'static str)
    requires
        k < FALLBACK_GROUPS,
    ensures
        r@ == fallback_word(k as nat, j as nat),
{
    if k == 0 {
        if j == 0 { "exam" } else { "test" }
    } else if k == 1 {
        if j == 0 { "coding" } else if j == 1 { "bug" } else if j == 2 { "feature" } else { "docs" }
    } else if k == 2 {
        if j == 0 { "whatsapp" } else if j == 1 { "message" } else if j == 2 { "meeting" } else { "call" }
    } else if k == 3 {
        if j == 0 { "url" } else if j == 1 { "link" } else if j == 2 { "phish" } else if j == 3 { "malware" } else { "suspicious" }
    } else if k == 4 {
        if j == 0 { "password" } else if j == 1 { "credential" } else if j == 2 { "breach" } else if j == 3 { "leak" } else { "exposed" }
    } else if k == 5 {
        if j == 0 { "weather" } else if j == 1 { "holiday" } else { "forecast" }
    } else {
        if j == 0 { "exchange" } else if j == 1 { "currency" } else if j == 2 { "rate" } else if j == 3 { "convert" } else if j == 4 { "define" } else if j == 5 { "meaning" } else { "definition" }
    }
}

/// Whether some keyword of fallback group `k` occurs in the text.
pub open spec fn group_hit(k: nat, text: Seq<char>) -> bool {
    exists|j: nat| j < fallback_word_count(k) && contains_spec(text, #[trigger] fallback_word(k, j))
}

/// The first fallback group with a keyword in the text; 7 (generic) when none.
pub open spec fn fallback_group_from(k: nat, text: Seq<char>) -> nat
    decreases 7 - k,
{
    if k >= 7 {
        7
    } else if group_hit(k, text) {
        k
    } else {
        fallback_group_from(k + 1, text)
    }
}

pub open spec fn fallback_action_type(k: nat) -> Seq<char> {
    if k == 0 {
        "schedule_preparation"@
    } else if k == 1 {
        "coding_context"@
    } else if k == 2 {
        "calendar_event"@
    } else if k == 3 {
        "security_scan"@
    } else if k == 4 {
        "breach_check"@
    } else if k == 5 {
        "weather_check"@
    } else if k == 6 {
        "currency_lookup"@
    } else {
        "generic_follow_up"@
    }
}

pub open spec fn fallback_title(k: nat) -> Seq<char> {
    if k == 0 {
        "Create next-week preparation blocks for upcoming exam"@
    } else if k == 1 {
        "Collect related docs/files and prepare coding notes"@
    } else if k == 2 {
        "Create calendar follow-up from communication signal"@
    } else if k == 3 {
        "Scan URL for malware/phishing using Security Toolkit"@
    } else if k == 4 {
        "Check credentials and generate secure passwords via Security Toolkit"@
    } else if k == 5 {
        "Check weather and upcoming holidays in Daily Brief"@
    } else if k == 6 {
        "Use Quick Utilities for currency rates or dictionary lookup"@
    } else {
        "Review signal and decide next action"@
    }
}

pub open spec fn fallback_note(k: nat) -> Seq<char> {
    if k == 0 {
        "Auto-created by fallback: reserve study sessions and prep notes."@
    } else if k == 1 {
        "Auto-created by fallback: gather references for coding task."@
    } else if k == 2 {
        "Auto-created by fallback: communication converted into a calendar reminder."@
    } else if k == 3 {
        "Auto-created by fallback: use the Security Toolkit URL scanner tab to check the link before clicking."@
    } else if k == 4 {
        "Auto-created by fallback: use the Breach tab to check email exposure and the Pass tab to generate strong passwords."@
    } else if k == 5 {
        "Auto-created by fallback: the Daily Brief widget shows current weather conditions and next public holiday."@
    } else if k == 6 {
        "Auto-created by fallback: toggle between Currency and Dictionary modes in the Quick Utilities widget."@
    } else {
        "No specific rule matched. Manual review requested."@
    }
}

fn fallback_strings(k: usize) -> (r: (&'static str, &'static str, &'static str))
    requires
        k <= FALLBACK_GROUPS,
    ensures
        r.0@ == fallback_action_type(k as nat),
        r.1@ == fallback_title(k as nat),
        r.2@ == fallback_note(k as nat),
{
    if k == 0 {
        ("schedule_preparation", "Create next-week preparation blocks for upcoming exam", "Auto-created by fallback: reserve study sessions and prep notes.")
    } else if k == 1 {
        ("coding_context", "Collect related docs/files and prepare coding notes", "Auto-created by fallback: gather references for coding task.")
    } else if k == 2 {
        ("calendar_event", "Create calendar follow-up from communication signal", "Auto-created by fallback: communication converted into a calendar reminder.")
    } else if k == 3 {
        ("security_scan", "Scan URL for malware/phishing using Security Toolkit", "Auto-created by fallback: use the Security Toolkit URL scanner tab to check the link before clicking.")
    } else if k == 4 {
        ("breach_check", "Check credentials and generate secure passwords via Security Toolkit", "Auto-created by fallback: use the Breach tab to check email exposure and the Pass tab to generate strong passwords.")
    } else if k == 5 {
        ("weather_check", "Check weather and upcoming holidays in Daily Brief", "Auto-created by fallback: the Daily Brief widget shows current weather conditions and next public holiday.")
    } else if k == 6 {
        ("currency_lookup", "Use Quick Utilities for currency rates or dictionary lookup", "Auto-created by fallback: toggle between Currency and Dictionary modes in the Quick Utilities widget.")
    } else {
        ("generic_follow_up", "Review signal and decide next action", "No specific rule matched. Manual review requested.")
    }
}

fn group_hit_exec(k: usize, text: &str) -> (r: bool)
    requires
        k < FALLBACK_GROUPS,
    ensures
        r == group_hit(k as nat, text@),
{
    let n = fallback_word_count_exec(k);
    let mut j: usize = 0;
    while j < n
        invariant
            k < FALLBACK_GROUPS,
            n == fallback_word_count(k as nat),
            j <= n,
            forall|m: nat| m < j ==> !contains_spec(text@, #[trigger] fallback_word(k as nat, m)),
        decreases n - j,
    {
        if contains(text, fallback_word_str(k, j)) {
            assert(contains_spec(text@, fallback_word(k as nat, j as nat)));
            return true;
        }
        j = j + 1;
    }
    false
}

/// The fallback group of a lowercase text.
pub fn fallback_group(text: &str) -> (r: usize)
    ensures
        r == fallback_group_from(0, text@),
        r <= 7,
{
    let mut k: usize = 0;
    while k < FALLBACK_GROUPS
        invariant
            k <= 7,
            fallback_group_from(0, text@) == fallback_group_from(k as nat, text@),
        decreases 7 - k,
    {
        if group_hit_exec(k, text) {
            return k;
        }
        k = k + 1;
    }
    7
}

/// The keywords of each fallback group, in order: exam and test prepare a
/// schedule; coding words collect context; messages and meetings make a
/// calendar event; links and malware ask for a scan; passwords, credentials,
/// breaches, leaks and exposures ask for a breach check; weather words a
/// weather check; currency and dictionary words a lookup.
pub open spec fn fallback_keywords(k: nat) -> Seq<Seq<char>> {
    if k == 0 {
        seq!["exam"@, "test"@]
    } else if k == 1 {
        seq!["coding"@, "bug"@, "feature"@, "docs"@]
    } else if k == 2 {
        seq!["whatsapp"@, "message"@, "meeting"@, "call"@]
    } else if k == 3 {
        seq!["url"@, "link"@, "phish"@, "malware"@, "suspicious"@]
    } else if k == 4 {
        seq!["password"@, "credential"@, "breach"@, "leak"@, "exposed"@]
    } else if k == 5 {
        seq!["weather"@, "holiday"@, "forecast"@]
    } else {
        seq!["exchange"@, "currency"@, "rate"@, "convert"@, "define"@, "meaning"@, "definition"@]
    }
}

/// A group is hit exactly when one of its keywords occurs in the text.
pub proof fn lemma_group_keywords(k: nat, text: Seq<char>)
    requires
        k < 7,
    ensures
        group_hit(k, text) <==> exists|i: int|
            0 <= i < fallback_keywords(k).len() && contains_spec(text, #[trigger] fallback_keywords(k)[i]),
{
    assert(fallback_word_count(k) == fallback_keywords(k).len());
    assert forall|j: nat| j < fallback_word_count(k) implies #[trigger] fallback_word(k, j)
        == fallback_keywords(k)[j as int] by {}
    if group_hit(k, text) {
        let j = choose|j: nat| j < fallback_word_count(k) && contains_spec(text, #[trigger] fallback_word(k, j));
        assert(contains_spec(text, fallback_keywords(k)[j as int]));
    }
    if exists|i: int| 0 <= i < fallback_keywords(k).len() && contains_spec(text, #[trigger] fallback_keywords(k)[i]) {
        let i = choose|i: int| 0 <= i < fallback_keywords(k).len() && contains_spec(text, #[trigger] fallback_keywords(k)[i]);
        assert(fallback_word(k, i as nat) == fallback_keywords(k)[i]);
        assert(contains_spec(text, fallback_word(k, i as nat)));
    }
}

proof fn lemma_group_from(m: nat, k: nat, text: Seq<char>)
    requires
        m <= k < 7,
        group_hit(k, text),
        forall|j: nat| j < k ==> !#[trigger] group_hit(j, text),
    ensures
        fallback_group_from(m, text) == k,
    decreases k - m,
{
    if m < k {
        assert(!group_hit(m, text));
        lemma_group_from(m + 1, k, text);
    }
}

/// The fallback group of a text is the first group with a keyword in it.
pub proof fn lemma_first_group(k: nat, text: Seq<char>)
    requires
        k < 7,
        group_hit(k, text),
        forall|j: nat| j < k ==> !#[trigger] group_hit(j, text),
    ensures
        fallback_group_from(0, text) == k,
{
    lemma_group_from(0, k, text);
}

/// A text holding "password", "credential", "breach", "leak" or "exposed",
/// and no keyword of the four earlier groups, gets the breach check.
pub proof fn lemma_breach_check(text: Seq<char>)
    requires
        contains_spec(text, "password"@) || contains_spec(text, "credential"@) || contains_spec(
            text,
            "breach"@,
        ) || contains_spec(text, "leak"@) || contains_spec(text, "exposed"@),
        forall|j: nat| j < 4 ==> !#[trigger] group_hit(j, text),
    ensures
        fallback_group_from(0, text) == 4,
        fallback_action_type(fallback_group_from(0, text)) == "breach_check"@,
        fallback_title(fallback_group_from(0, text))
            == "Check credentials and generate secure passwords via Security Toolkit"@,
{
    lemma_group_keywords(4, text);
    let ks = fallback_keywords(4);
    if contains_spec(text, "password"@) {
        assert(contains_spec(text, ks[0]));
    } else if contains_spec(text, "credential"@) {
        assert(contains_spec(text, ks[1]));
    } else if contains_spec(text, "breach"@) {
        assert(contains_spec(text, ks[2]));
    } else if contains_spec(text, "leak"@) {
        assert(contains_spec(text, ks[3]));
    } else {
        assert(contains_spec(text, ks[4]));
    }
    lemma_first_group(4, text);
}

/// A rule's view as the planner reads it.
pub open spec fn rule_plan(
    r: OrchestrationRule,
    content: Seq<char>,
    due_date: Seq<char>,
) -> PlanView {
    (
        r.action_type@,
        render_spec(r.title_template@, content, due_date),
        Some(due_date),
        match r.note_template {
            Some(t) => Some(render_spec(t@, content, due_date)),
            None => None,
        },
    )
}

/// The actions of the rules (in order) that match the lowercase source and content.
pub open spec fn rule_plans(
    rules: Seq<OrchestrationRule>,
    nsource: Seq<char>,
    ncontent: Seq<char>,
    content: Seq<char>,
    due_date: Seq<char>,
) -> Seq<PlanView>
    decreases rules.len(),
{
    if rules.len() == 0 {
        Seq::empty()
    } else {
        let before = rule_plans(rules.drop_last(), nsource, ncontent, content, due_date);
        let r = rules.last();
        if pattern_matches(opt_view(r.source_pattern), nsource) && pattern_matches(
            opt_view(r.keyword_pattern),
            ncontent,
        ) {
            before.push(rule_plan(r, content, due_date))
        } else {
            before
        }
    }
}

/// The plan for a signal: the matching rules' actions; where none matches,
/// the action of the first fallback keyword group found in the content, or a
/// generic follow-up.
pub open spec fn fallback_plan_spec(
    rules: Seq<OrchestrationRule>,
    source: Seq<char>,
    content: Seq<char>,
    due_date: Seq<char>,
) -> Seq<PlanView> {
    let nc = lowercase_of(content);
    let ns = lowercase_of(source);
    let from_rules = rule_plans(rules, ns, nc, content, due_date);
    if from_rules.len() > 0 {
        from_rules
    } else {
        let k = fallback_group_from(0, nc);
        seq![(fallback_action_type(k), fallback_title(k), Some(due_date), Some(fallback_note(k)))]
    }
}

/// When no rule matches, a signal whose lower-cased content holds a
/// credential keyword (and no keyword of an earlier group) gets one action,
/// the breach check.
pub proof fn lemma_fallback_plan_breach(
    rules: Seq<OrchestrationRule>,
    source: Seq<char>,
    content: Seq<char>,
    due_date: Seq<char>,
)
    requires
        rule_plans(rules, lowercase_of(source), lowercase_of(content), content, due_date).len() == 0,
        contains_spec(lowercase_of(content), "password"@) || contains_spec(lowercase_of(content), "credential"@)
            || contains_spec(lowercase_of(content), "breach"@) || contains_spec(lowercase_of(content), "leak"@)
            || contains_spec(lowercase_of(content), "exposed"@),
        forall|j: nat| j < 4 ==> !#[trigger] group_hit(j, lowercase_of(content)),
    ensures
        fallback_plan_spec(rules, source, content, due_date).len() == 1,
        fallback_plan_spec(rules, source, content, due_date)[0].0 == "breach_check"@,
        fallback_plan_spec(rules, source, content, due_date)[0].1
            == "Check credentials and generate secure passwords via Security Toolkit"@,
{
    lemma_breach_check(lowercase_of(content));
}

/// Decides the actions for a signal without the agent: every active rule
/// whose patterns match produces an action; if none does, keyword fallbacks
/// pick one.
pub fn process_signal_fallback(
    rules: &Vec<OrchestrationRule>,
    signal: &OrchestrationSignalInput,
    sanitized_content: &str,
    due_date: &str,
) -> (r: Vec<PlannedAction>)
    ensures
        plans_view(r@) == fallback_plan_spec(rules@, signal.source@, sanitized_content@, due_date@),
        r@.len() >= 1,
{
    let normalized_content = to_lowercase(sanitized_content);
    let normalized_source = to_lowercase(signal.source.as_str());
    let mut created: Vec<PlannedAction> = Vec::new();
    let mut i: usize = 0;
    assert(rules@.take(0) =~= Seq::<OrchestrationRule>::empty());
    while i < rules.len()
        invariant
            i <= rules@.len(),
            normalized_content@ == lowercase_of(sanitized_content@),
            normalized_source@ == lowercase_of(signal.source@),
            plans_view(created@) == rule_plans(
                rules@.take(i as int),
                normalized_source@,
                normalized_content@,
                sanitized_content@,
                due_date@,
            ),
        decreases rules@.len() - i,
    {
        let rule = &rules[i];
        proof {
            assert(rules@.take(i + 1).drop_last() =~= rules@.take(i as int));
            assert(rules@.take(i + 1).last() == rules@[i as int]);
        }
        if matches_rule(
            &rule.source_pattern,
            &rule.keyword_pattern,
            normalized_source.as_str(),
            normalized_content.as_str(),
        ) {
            let title = render_template(rule.title_template.as_str(), sanitized_content, due_date);
            let note = match &rule.note_template {
                Some(t) => Some(render_template(t.as_str(), sanitized_content, due_date)),
                None => None,
            };
            let action = PlannedAction {
                action_type: rule.action_type.clone(),
                title,
                due_date: Some(lit(due_date)),
                note,
            };
            created.push(action);
            assert(plans_view(created@) =~= rule_plans(
                rules@.take(i + 1),
                normalized_source@,
                normalized_content@,
                sanitized_content@,
                due_date@,
            ));
        }
        i = i + 1;
    }
    assert(rules@.take(rules@.len() as int) =~= rules@);
    if created.len() == 0 {
        let k = fallback_group(normalized_content.as_str());
        let (t, title, note) = fallback_strings(k);
        created.push(
            PlannedAction {
                action_type: lit(t),
                title: lit(title),
                due_date: Some(lit(due_date)),
                note: Some(lit(note)),
            },
        );
        assert(plans_view(created@) =~= fallback_plan_spec(
            rules@,
            signal.source@,
            sanitized_content@,
            due_date@,
        ));
    }
    created
}

/// A stored action as the queue shows it: a planned action with its row id,
/// pending.
pub fn pending_action(id: i64, plan: PlannedAction) -> (r: OrchestrationAction)
    ensures
        r.id == id,
        r.action_type@ == plan.action_type@,
        r.title@ == plan.title@,
        opt_view(r.due_date) == opt_view(plan.due_date),
        r.status@ == "pending"@,
        opt_view(r.note) == opt_view(plan.note),
{
    OrchestrationAction {
        id,
        action_type: plan.action_type,
        title: plan.title,
        due_date: plan.due_date,
        status: lit("pending"),
        note: plan.note,
    }
}

// ─── Signals and the agent round ─────────────────────────────────────────────

/// A signal's content after redaction, and its redacted metadata.
pub struct SanitizedSignal {
    pub content_scan: SensitiveScanResult,
    pub metadata: Option<String>,
}

/// Redacts a signal's content and metadata before anything stores or forwards them.
pub fn sanitize_signal(signal: &OrchestrationSignalInput) -> (r: SanitizedSignal)
    ensures
        scan_outcome(signal.content@, r.content_scan),
        r.content_scan.redacted_text@ == passes_spec(15, signal.content@).0,
        match signal.metadata {
            Some(m) => r.metadata is Some && r.metadata->0@ == passes_spec(15, m@).0,
            None => r.metadata is None,
        },
{
    let content_scan = match scan_and_redact(signal.content.as_str()) {
        Ok(v) => v,
        Err(_) => {
            assert(false);
            SensitiveScanResult {
                redacted_text: String::new(),
                has_sensitive: false,
                redaction_count: 0,
                detections: Vec::new(),
                severity: String::new(),
            }
        },
    };
    let metadata = match &signal.metadata {
        Some(m) => match scan_and_redact(m.as_str()) {
            Ok(v) => Some(v.redacted_text),
            Err(_) => None,
        },
        None => None,
    };
    SanitizedSignal { content_scan, metadata }
}

/// Where the orchestration of one signal stands.
#[derive(Clone, Copy, Debug, PartialEq, Eq, Structural)]
pub enum OrchestrationPhase {
    Start,
    AwaitingHealth,
    AwaitingAgent,
    Finished,
}

/// What the caller observed since the last step.
#[derive(Clone, Copy, Debug, PartialEq, Eq, Structural)]
pub enum OrchestrationEvent {
    Begin,
    Health(bool),
    AgentReply(bool),
}

/// What the caller is to do next.
#[derive(Clone, Copy, Debug, PartialEq, Eq, Structural)]
pub enum OrchestrationCommand {
    ProbeHealth,
    CallAgent,
    StoreAgentActions,
    RunFallback,
    Wait,
}

/// One step of the signal round: probe the agent, call it when healthy, keep
/// its actions when it answers, and fall back to the keyword planner when it
/// is down or fails.
pub fn next_orchestration_step(phase: OrchestrationPhase, event: OrchestrationEvent) -> (r: (
    OrchestrationPhase,
    OrchestrationCommand,
))
    ensures
        phase == OrchestrationPhase::Start && event == OrchestrationEvent::Begin ==> r == (
            OrchestrationPhase::AwaitingHealth,
            OrchestrationCommand::ProbeHealth,
        ),
        phase == OrchestrationPhase::AwaitingHealth && event == OrchestrationEvent::Health(true)
            ==> r == (OrchestrationPhase::AwaitingAgent, OrchestrationCommand::CallAgent),
        phase == OrchestrationPhase::AwaitingHealth && event == OrchestrationEvent::Health(false)
            ==> r == (OrchestrationPhase::Finished, OrchestrationCommand::RunFallback),
        phase == OrchestrationPhase::AwaitingAgent && event == OrchestrationEvent::AgentReply(true)
            ==> r == (OrchestrationPhase::Finished, OrchestrationCommand::StoreAgentActions),
        phase == OrchestrationPhase::AwaitingAgent && event == OrchestrationEvent::AgentReply(
            false,
        ) ==> r == (OrchestrationPhase::Finished, OrchestrationCommand::RunFallback),
        !((phase == OrchestrationPhase::Start && event == OrchestrationEvent::Begin) || (phase
            == OrchestrationPhase::AwaitingHealth && event is Health) || (phase
            == OrchestrationPhase::AwaitingAgent && event is AgentReply)) ==> r == (
            phase,
            OrchestrationCommand::Wait,
        ),
{
    match (phase, event) {
        (OrchestrationPhase::Start, OrchestrationEvent::Begin) => (
            OrchestrationPhase::AwaitingHealth,
            OrchestrationCommand::ProbeHealth,
        ),
        (OrchestrationPhase::AwaitingHealth, OrchestrationEvent::Health(healthy)) => {
            if healthy {
                (OrchestrationPhase::AwaitingAgent, OrchestrationCommand::CallAgent)
            } else {
                (OrchestrationPhase::Finished, OrchestrationCommand::RunFallback)
            }
        },
        (OrchestrationPhase::AwaitingAgent, OrchestrationEvent::AgentReply(ok)) => {
            if ok {
                (OrchestrationPhase::Finished, OrchestrationCommand::StoreAgentActions)
            } else {
                (OrchestrationPhase::Finished, OrchestrationCommand::RunFallback)
            }
        },
        _ => (phase, OrchestrationCommand::Wait),
    }
}

// ─── Related files ───────────────────────────────────────────────────────────

/// Adds a row to the related files unless five are already chosen or a file
/// with the same path is among them.
pub open spec fn related_step(acc: Seq<RelatedFile>, row: RelatedFile) -> Seq<RelatedFile> {
    if acc.len() >= 5 || (exists|j: int| 0 <= j < acc.len() && acc[j].path@ == row.path@) {
        acc
    } else {
        acc.push(row)
    }
}

pub open spec fn related_fold(rows: Seq<RelatedFile>) -> Seq<RelatedFile>
    decreases rows.len(),
{
    if rows.len() == 0 {
        Seq::empty()
    } else {
        related_step(related_fold(rows.drop_last()), rows.last())
    }
}

pub open spec fn flatten_rows(batches: Seq<Vec<RelatedFile>>) -> Seq<RelatedFile>
    decreases batches.len(),
{
    if batches.len() == 0 {
        Seq::empty()
    } else {
        flatten_rows(batches.drop_last()) + batches.last()@
    }
}

impl RelatedFile {
    /// A field-by-field copy.
    pub fn duplicate(&self) -> (r: RelatedFile)
        ensures
            r == *self,
    {
        RelatedFile {
            path: self.path.clone(),
            name: self.name.clone(),
            last_accessed: self.last_accessed,
            access_count: self.access_count,
        }
    }
}

/// The related files never repeat a path and are at most five.
pub proof fn lemma_related_distinct(rows: Seq<RelatedFile>)
    ensures
        related_fold(rows).len() <= 5,
        forall|i: int, j: int|
            0 <= i < j < related_fold(rows).len() ==> related_fold(rows)[i].path@ != related_fold(rows)[j].path@,
    decreases rows.len(),
{
    if rows.len() > 0 {
        lemma_related_distinct(rows.drop_last());
        let acc = related_fold(rows.drop_last());
        let row = rows.last();
        if !(acc.len() >= 5 || (exists|j: int| 0 <= j < acc.len() && acc[j].path@ == row.path@)) {
            let out = acc.push(row);
            assert forall|i: int, j: int| 0 <= i < j < out.len() implies out[i].path@ != out[j].path@ by {
                if j == out.len() - 1 {
                    assert(out[i] == acc[i]);
                } else {
                    assert(out[i] == acc[i] && out[j] == acc[j]);
                }
            }
        }
    }
}

/// Merges the history matches of each keyword (in keyword order, each batch
/// ordered by access count then recency): distinct paths, at most five.
pub fn collect_related_files(batches: &Vec<Vec<RelatedFile>>) -> (r: Vec<RelatedFile>)
    ensures
        r@ == related_fold(flatten_rows(batches@)),
        r@.len() <= 5,
{
    let ghost all = batches@;
    let mut out: Vec<RelatedFile> = Vec::new();
    let mut b: usize = 0;
    let nb = batches.len();
    assert(all.take(0) =~= Seq::<Vec<RelatedFile>>::empty());
    while b < nb
        invariant
            nb == all.len(),
            all == batches@,
            b <= nb,
            out@ == related_fold(flatten_rows(all.take(b as int))),
            out@.len() <= 5,
        decreases nb - b,
    {
        let rows = &batches[b];
        proof {
            assert(all.take(b + 1).drop_last() =~= all.take(b as int));
            assert(all.take(b + 1).last() == all[b as int]);
        }
        let ghost prefix = flatten_rows(all.take(b as int));
        let mut k: usize = 0;
        let nr = rows.len();
        while k < nr
            invariant
                nr == rows@.len(),
                k <= nr,
                out@ == related_fold(prefix + rows@.take(k as int)),
                out@.len() <= 5,
            decreases nr - k,
        {
            let row = rows[k].duplicate();
            let ghost acc = out@;
            proof {
                assert((prefix + rows@.take(k + 1)).drop_last() =~= prefix + rows@.take(k as int));
                assert((prefix + rows@.take(k + 1)).last() == rows@[k as int]);
            }
            let mut seen = false;
            let mut j: usize = 0;
            while j < out.len()
                invariant
                    j <= out@.len(),
                    out@ == acc,
                    seen <==> exists|m: int| 0 <= m < j && out@[m].path@ == row.path@,
                decreases out@.len() - j,
            {
                if out[j].path == row.path {
                    seen = true;
                }
                j = j + 1;
            }
            if out.len() < 5 && !seen {
                out.push(row);
            }
            k = k + 1;
        }
        assert(rows@.take(nr as int) =~= rows@);
        assert(flatten_rows(all.take(b + 1)) =~= prefix + rows@);
        b = b + 1;
    }
    assert(all.take(nb as int) =~= all);
    out
}

// ─── Applying actions ────────────────────────────────────────────────────────

/// A calendar block that applying an action books.
pub struct CalendarBlock {
    pub title: String,
    pub start_time: String,
    pub end_time: String,
    pub is_deep_work_block: i64,
}

/// What applying an action does besides marking it done.
pub struct ActionApplication {
    pub calendar_event: Option<CalendarBlock>,
    pub widget_note: Option<String>,
}

/// Whether an action type books a calendar block.
pub open spec fn books_calendar(t: Seq<char>) -> bool {
    t == "calendar_event"@ || t == "schedule_preparation"@
}

/// The widget an action type points the user to, if any.
pub open spec fn widget_for(t: Seq<char>) -> Option<Seq<char>> {
    if t == "security_scan"@ || t == "breach_check"@ || t == "password_generate"@ {
        Some("Security Toolkit"@)
    } else if t == "weather_check"@ {
        Some("Daily Brief"@)
    } else if t == "currency_lookup"@ || t == "dictionary_lookup"@ {
        Some("Quick Utilities"@)
    } else {
        None
    }
}

/// Plans the side effects of applying an action: preparation actions book an
/// evening deep-work block (19:00 to 20:30), calendar actions a morning slot
/// (10:00 to 10:30), on the due date or `today`; widget actions get a note
/// that names the widget.
pub fn plan_action_application(
    action_type: &str,
    title: &str,
    due_date: Option<String>,
    today: &str,
) -> (r: ActionApplication)
    ensures
        books_calendar(action_type@) <==> r.calendar_event is Some,
        r.calendar_event matches Some(c) ==> ({
            let date = match due_date {
                Some(d) => d@,
                None => today@,
            };
            let prep = action_type@ == "schedule_preparation"@;
            &&& c.title@ == title@
            &&& c.start_time@ == date + (if prep { " 19:00"@ } else { " 10:00"@ })
            &&& c.end_time@ == date + (if prep { " 20:30"@ } else { " 10:30"@ })
            &&& c.is_deep_work_block == (if prep { 1i64 } else { 0i64 })
        }),
        opt_view(r.widget_note) == match widget_for(action_type@) {
            Some(w) => Some("→ Open the "@ + w + " widget to act on this."@),
            None => None,
        },
{
    let is_calendar = str_eq(action_type, "calendar_event");
    let is_prep = str_eq(action_type, "schedule_preparation");
    let calendar_event = if is_calendar || is_prep {
        let date = match due_date {
            Some(d) => d,
            None => lit(today),
        };
        let (start, end, deep) = if is_prep {
            (concat2(date.as_str(), " 19:00"), concat2(date.as_str(), " 20:30"), 1i64)
        } else {
            (concat2(date.as_str(), " 10:00"), concat2(date.as_str(), " 10:30"), 0i64)
        };
        Some(CalendarBlock { title: lit(title), start_time: start, end_time: end, is_deep_work_block: deep })
    } else {
        None
    };
    let widget: Option<&str> = if str_eq(action_type, "security_scan") || str_eq(action_type, "breach_check")
        || str_eq(action_type, "password_generate") {
        Some("Security Toolkit")
    } else if str_eq(action_type, "weather_check") {
        Some("Daily Brief")
    } else if str_eq(action_type, "currency_lookup") || str_eq(action_type, "dictionary_lookup") {
        Some("Quick Utilities")
    } else {
        None
    };
    let widget_note = match widget {
        Some(w) => {
            let mut s = lit("→ Open the ");
            s.append(w);
            s.append(" widget to act on this.");
            Some(s)
        },
        None => None,
    };
    ActionApplication { calendar_event, widget_note }
}

/// An action's note after a widget hint is appended (the existing note and a
/// space, then the hint).
pub fn annotate_note(note: &Option<String>, hint: &str) -> (r: String)
    ensures
        r@ == match *note {
            Some(n) => n@ + " "@ + hint@,
            None => hint@,
        },
{
    match note {
        Some(n) => {
            let mut s = n.clone();
            s.append(" ");
            s.append(hint);
            s
        },
        None => lit(hint),
    }
}

// ─── Agent settings ──────────────────────────────────────────────────────────

/// Agent settings before the user changes any: port 8765, auto start,
/// `python`, no script directory, the AI provider on, two retries.
pub fn default_agent_settings() -> (r: OrchestrationAgentSettings)
    ensures
        r.agent_port == 8765,
        r.auto_start,
        r.python_executable@ == "python"@,
        r.script_dir@.len() == 0,
        r.use_ai_provider,
        r.max_retries == 2,
        r.updated_at == 0,
{
    OrchestrationAgentSettings {
        agent_port: 8765,
        auto_start: true,
        python_executable: lit("python"),
        script_dir: String::new(),
        use_ai_provider: true,
        max_retries: 2,
        updated_at: 0,
    }
}

/// A text input that counts: present and not blank.
pub open spec fn filled(o: Option<Seq<char>>) -> bool {
    o matches Some(v) && !is_blank_spec(v)
}

fn keep_or(input: Option<String>, current: &String) -> (r: String)
    ensures
        r@ == (if filled(opt_view(input)) {
            opt_view(input)->0
        } else {
            current@
        }),
{
    match input {
        Some(v) => {
            if !is_blank(v.as_str()) {
                v
            } else {
                current.clone()
            }
        },
        None => current.clone(),
    }
}

/// Applies a partial update to the agent settings: given fields replace the
/// current ones (texts only when not blank, kept as given), and the update
/// time is `now`.
pub fn merge_agent_settings(
    current: &OrchestrationAgentSettings,
    input: OrchestrationAgentSettingsInput,
    now: i64,
) -> (r: OrchestrationAgentSettings)
    ensures
        r.agent_port == match input.agent_port {
            Some(p) => p,
            None => current.agent_port,
        },
        r.auto_start == match input.auto_start {
            Some(b) => b,
            None => current.auto_start,
        },
        r.python_executable@ == (if filled(opt_view(input.python_executable)) {
            opt_view(input.python_executable)->0
        } else {
            current.python_executable@
        }),
        r.script_dir@ == (if filled(opt_view(input.script_dir)) {
            opt_view(input.script_dir)->0
        } else {
            current.script_dir@
        }),
        r.use_ai_provider == match input.use_ai_provider {
            Some(b) => b,
            None => current.use_ai_provider,
        },
        r.max_retries == match input.max_retries {
            Some(m) => m,
            None => current.max_retries,
        },
        r.updated_at == now,
{
    OrchestrationAgentSettings {
        agent_port: match input.agent_port {
            Some(p) => p,
            None => current.agent_port,
        },
        auto_start: match input.auto_start {
            Some(b) => b,
            None => current.auto_start,
        },
        python_executable: keep_or(input.python_executable, &current.python_executable),
        script_dir: keep_or(input.script_dir, &current.script_dir),
        use_ai_provider: match input.use_ai_provider {
            Some(b) => b,
            None => current.use_ai_provider,
        },
        max_retries: match input.max_retries {
            Some(m) => m,
            None => current.max_retries,
        },
        updated_at: now,
    }
}

/// The status report of the agent: running means healthy; the uptime is not tracked.
pub fn agent_status(healthy: bool, port: u16, settings: OrchestrationAgentSettings) -> (r: AgentStatus)
    ensures
        r.running == healthy,
        r.port == port,
        r.uptime_ms is None,
        r.settings == settings,
{
    AgentStatus { running: healthy, port, uptime_ms: None, settings }
}

// ─── URLs ────────────────────────────────────────────────────────────────────

/// Base URL of the agent on the loopback interface.
pub fn agent_base_url(port: u16) -> (r: String)
    ensures
        r@ == "http://127.0.0.1:"@ + decimal_spec(port as nat),
{
    let p = decimal(port as u128);
    concat2("http://127.0.0.1:", p.as_str())
}

/// Characters left as they are by the percent-encoding.
pub open spec fn is_unreserved(c: char) -> bool {
    is_alnum_spec(c) || c == '-' || c == '_' || c == '.' || c == '~'
}

/// Bytes left as they are by the percent-encoding: those of ASCII letters,
/// digits and `-_.~`.
pub open spec fn is_unreserved_byte(b: u8) -> bool {
    (0x41 <= b && b <= 0x5a) || (0x61 <= b && b <= 0x7a) || (0x30 <= b && b <= 0x39) || b == 0x2d
        || b == 0x5f || b == 0x2e || b == 0x7e
}

/// An upper-case hexadecimal digit.
pub open spec fn hex_digit_char(d: nat) -> char {
    if d < 10 {
        crate::text::digit_char(d)
    } else if d == 10 {
        'A'
    } else if d == 11 {
        'B'
    } else if d == 12 {
        'C'
    } else if d == 13 {
        'D'
    } else if d == 14 {
        'E'
    } else {
        'F'
    }
}

/// What one byte becomes: itself where it is unreserved, else `%` and its
/// two upper-case hexadecimal digits.
pub open spec fn url_byte_unit(b: u8) -> Seq<char> {
    if is_unreserved_byte(b) {
        seq![b as char]
    } else {
        seq!['%', hex_digit_char((b / 16) as nat), hex_digit_char((b % 16) as nat)]
    }
}

/// The percent-encoding of a byte sequence, byte by byte.
pub open spec fn urlencode_bytes(bs: Seq<u8>) -> Seq<char>
    decreases bs.len(),
{
    if bs.len() == 0 {
        Seq::empty()
    } else {
        urlencode_bytes(bs.drop_last()) + url_byte_unit(bs.last())
    }
}

/// The percent-encoding of a text (RFC 3986): each byte of its UTF-8
/// encoding as `url_byte_unit` writes it.
pub open spec fn urlencode_spec(s: Seq<char>) -> Seq<char> {
    urlencode_bytes(encode_utf8(s))
}

fn hex_digit(d: u32) -> (c: char)
    requires
        d < 16,
    ensures
        c == hex_digit_char(d as nat),
{
    if d == 0 {
        '0'
    } else if d == 1 {
        '1'
    } else if d == 2 {
        '2'
    } else if d == 3 {
        '3'
    } else if d == 4 {
        '4'
    } else if d == 5 {
        '5'
    } else if d == 6 {
        '6'
    } else if d == 7 {
        '7'
    } else if d == 8 {
        '8'
    } else if d == 9 {
        '9'
    } else if d == 10 {
        'A'
    } else if d == 11 {
        'B'
    } else if d == 12 {
        'C'
    } else if d == 13 {
        'D'
    } else if d == 14 {
        'E'
    } else {
        'F'
    }
}

/// Percent-encodes a query value: the UTF-8 bytes of ASCII letters, digits
/// and `-_.~` stay; every other byte becomes `%` and two upper-case
/// hexadecimal digits.
pub fn urlencoding(s: &str) -> (r: String)
    ensures
        r@ == urlencode_spec(s@),
{
    let bytes = s.as_bytes();
    let mut out: Vec<char> = Vec::new();
    let mut i: usize = 0;
    assert(bytes@.take(0) =~= Seq::<u8>::empty());
    while i < bytes.len()
        invariant
            bytes@ == encode_utf8(s@),
            i <= bytes@.len(),
            out@ == urlencode_bytes(bytes@.take(i as int)),
        decreases bytes@.len() - i,
    {
        let b = bytes[i];
        proof {
            assert(bytes@.take(i + 1).drop_last() =~= bytes@.take(i as int));
            assert(bytes@.take(i + 1).last() == b);
        }
        if (0x41 <= b && b <= 0x5a) || (0x61 <= b && b <= 0x7a) || (0x30 <= b && b <= 0x39) || b
            == 0x2d || b == 0x5f || b == 0x2e || b == 0x7e {
            out.push(b as char);
        } else {
            out.push('%');
            out.push(hex_digit((b / 16) as u32));
            out.push(hex_digit((b % 16) as u32));
        }
        assert(out@ =~= urlencode_bytes(bytes@.take(i + 1)));
        i = i + 1;
    }
    assert(bytes@.take(bytes@.len() as int) =~= bytes@);
    string_from_chars(out.as_slice())
}

/// The value of a hexadecimal digit (either case; zero for anything else).
pub open spec fn hex_value(c: char) -> int {
    if '0' <= c && c <= '9' {
        c as int - '0' as int
    } else if 'A' <= c && c <= 'F' {
        c as int - 'A' as int + 10
    } else if 'a' <= c && c <= 'f' {
        c as int - 'a' as int + 10
    } else {
        0
    }
}

/// Percent-decoding to bytes: a `%` and the two hexadecimal digits after it
/// give the byte of that value; any other character gives its code as a
/// byte.
pub open spec fn percent_decode_bytes(t: Seq<char>) -> Seq<u8>
    decreases t.len(),
{
    if t.len() == 0 {
        Seq::empty()
    } else if t[0] == '%' && t.len() >= 3 {
        seq![(hex_value(t[1]) * 16 + hex_value(t[2])) as u8] + percent_decode_bytes(t.skip(3))
    } else {
        seq![(t[0] as u32) as u8] + percent_decode_bytes(t.skip(1))
    }
}

proof fn lemma_hex_digit(d: nat)
    requires
        d < 16,
    ensures
        hex_value(hex_digit_char(d)) == d,
        is_unreserved(hex_digit_char(d)),
{
}

proof fn lemma_byte_unit(b: u8)
    ensures
        forall|i: int| 0 <= i < url_byte_unit(b).len() ==> is_unreserved(#[trigger] url_byte_unit(b)[i])
            || url_byte_unit(b)[i] == '%',
        percent_decode_bytes(url_byte_unit(b)) == seq![b],
{
    let u = url_byte_unit(b);
    if is_unreserved_byte(b) {
        assert((b as char) as u32 == b);
        assert(((b as char) as u32) as u8 == b);
        assert(is_unreserved(b as char));
        assert(u[0] != '%');
        assert(u.skip(1) =~= Seq::<char>::empty());
        assert(percent_decode_bytes(u.skip(1)) =~= Seq::<u8>::empty());
        assert(percent_decode_bytes(u) == seq![((u[0] as u32) as u8)] + percent_decode_bytes(u.skip(1)));
    } else {
        lemma_hex_digit((b / 16) as nat);
        lemma_hex_digit((b % 16) as nat);
        assert(hex_value(u[1]) * 16 + hex_value(u[2]) == b);
        assert(u.skip(3) =~= Seq::<char>::empty());
        assert(percent_decode_bytes(u.skip(3)) =~= Seq::<u8>::empty());
        assert(percent_decode_bytes(u) == seq![(hex_value(u[1]) * 16 + hex_value(u[2])) as u8]
            + percent_decode_bytes(u.skip(3)));
    }
    assert(percent_decode_bytes(u) =~= seq![b]);
}

/// The encoding read from the front: the first byte's unit, then the
/// encoding of the rest.
proof fn lemma_urlencode_bytes_front(bs: Seq<u8>)
    requires
        bs.len() > 0,
    ensures
        urlencode_bytes(bs) == url_byte_unit(bs[0]) + urlencode_bytes(bs.skip(1)),
    decreases bs.len(),
{
    if bs.len() == 1 {
        assert(bs.drop_last() =~= Seq::<u8>::empty());
        assert(bs.skip(1) =~= Seq::<u8>::empty());
        assert(urlencode_bytes(bs) =~= url_byte_unit(bs[0]) + urlencode_bytes(bs.skip(1)));
    } else {
        lemma_urlencode_bytes_front(bs.drop_last());
        assert(bs.drop_last().skip(1) =~= bs.skip(1).drop_last());
        assert(bs.skip(1).last() == bs.last());
        assert(urlencode_bytes(bs) =~= url_byte_unit(bs[0]) + urlencode_bytes(bs.skip(1)));
    }
}

proof fn lemma_bytes_round_trip(bs: Seq<u8>)
    ensures
        percent_decode_bytes(urlencode_bytes(bs)) == bs,
        forall|i: int|
            0 <= i < urlencode_bytes(bs).len() ==> is_unreserved(#[trigger] urlencode_bytes(bs)[i])
                || urlencode_bytes(bs)[i] == '%',
    decreases bs.len(),
{
    if bs.len() == 0 {
        assert(urlencode_bytes(bs) =~= Seq::<char>::empty());
    } else {
        lemma_urlencode_bytes_front(bs);
        lemma_bytes_round_trip(bs.skip(1));
        lemma_byte_unit(bs[0]);
        let u = url_byte_unit(bs[0]);
        let rest = urlencode_bytes(bs.skip(1));
        let e = urlencode_bytes(bs);
        assert(e == u + rest);
        if is_unreserved_byte(bs[0]) {
            assert(e[0] == u[0]);
            assert(e.skip(1) =~= rest);
        } else {
            assert(e[0] == '%' && e[1] == u[1] && e[2] == u[2]);
            assert(e.skip(3) =~= rest);
        }
        assert(percent_decode_bytes(e) =~= bs);
        assert forall|i: int| 0 <= i < e.len() implies is_unreserved(#[trigger] e[i]) || e[i] == '%' by {
            if i < u.len() {
                assert(e[i] == u[i]);
            } else {
                assert(e[i] == rest[i - u.len()]);
            }
        }
    }
}

/// Every character of an encoding is an ASCII letter or digit, one of
/// `-_.~`, or `%`.
pub proof fn lemma_urlencode_charset(s: Seq<char>)
    ensures
        forall|i: int|
            0 <= i < urlencode_spec(s).len() ==> is_unreserved(#[trigger] urlencode_spec(s)[i])
                || urlencode_spec(s)[i] == '%',
{
    lemma_bytes_round_trip(encode_utf8(s));
}

/// Decoding the encoding gives the text back: the decoded bytes are the
/// text's UTF-8 encoding, which reads back as the text.
pub proof fn lemma_urlencode_round_trip(s: Seq<char>)
    ensures
        percent_decode_bytes(urlencode_spec(s)) == encode_utf8(s),
        decode_utf8(percent_decode_bytes(urlencode_spec(s))) == s,
{
    lemma_bytes_round_trip(encode_utf8(s));
    vstd::utf8::encode_utf8_decode_utf8(s);
}

// ─── Starting the agent ──────────────────────────────────────────────────────

/// Where a start of the agent stands.
#[derive(Clone, Copy, Debug, PartialEq, Eq, Structural)]
pub enum AgentLaunchPhase {
    Start,
    ConfirmingRunning,
    Locating,
    Spawning,
    WarmingUp { probes: u32 },
    Done,
}

/// What the caller observed since the last step.
#[derive(Clone, Copy, Debug, PartialEq, Eq, Structural)]
pub enum AgentLaunchEvent {
    /// The start was asked; whether an agent is recorded as running.
    Begin { running: bool },
    Health(bool),
    ScriptFound(bool),
    Spawned(bool),
    Slept,
}

/// What the caller is to do next.
#[derive(Clone, Copy, Debug, PartialEq, Eq, Structural)]
pub enum AgentLaunchCommand {
    ProbeHealth,
    LocateScript,
    Spawn,
    SleepHalfSecond,
    ReportAlreadyRunning,
    ReportScriptMissing,
    ReportSpawnFailed,
    ReportStarted,
    ReportWarmingUp,
    Wait,
}

/// How often a freshly spawned agent is probed (every half second).
pub const AGENT_WARMUP_PROBES: u32 = 20;

/// One step of starting the agent: a recorded agent that answers is kept;
/// otherwise the script is located and spawned, then probed up to twenty
/// times, half a second apart, before reporting it as still warming up.
pub open spec fn launch_step_spec(phase: AgentLaunchPhase, event: AgentLaunchEvent) -> (AgentLaunchPhase, AgentLaunchCommand) {
    match phase {
        AgentLaunchPhase::Start => match event {
            AgentLaunchEvent::Begin { running } => if running {
                (AgentLaunchPhase::ConfirmingRunning, AgentLaunchCommand::ProbeHealth)
            } else {
                (AgentLaunchPhase::Locating, AgentLaunchCommand::LocateScript)
            },
            _ => (phase, AgentLaunchCommand::Wait),
        },
        AgentLaunchPhase::ConfirmingRunning => match event {
            AgentLaunchEvent::Health(healthy) => if healthy {
                (AgentLaunchPhase::Done, AgentLaunchCommand::ReportAlreadyRunning)
            } else {
                (AgentLaunchPhase::Locating, AgentLaunchCommand::LocateScript)
            },
            _ => (phase, AgentLaunchCommand::Wait),
        },
        AgentLaunchPhase::Locating => match event {
            AgentLaunchEvent::ScriptFound(found) => if found {
                (AgentLaunchPhase::Spawning, AgentLaunchCommand::Spawn)
            } else {
                (AgentLaunchPhase::Done, AgentLaunchCommand::ReportScriptMissing)
            },
            _ => (phase, AgentLaunchCommand::Wait),
        },
        AgentLaunchPhase::Spawning => match event {
            AgentLaunchEvent::Spawned(ok) => if ok {
                (AgentLaunchPhase::WarmingUp { probes: 0 }, AgentLaunchCommand::SleepHalfSecond)
            } else {
                (AgentLaunchPhase::Done, AgentLaunchCommand::ReportSpawnFailed)
            },
            _ => (phase, AgentLaunchCommand::Wait),
        },
        AgentLaunchPhase::WarmingUp { probes } => match event {
            AgentLaunchEvent::Slept => (phase, AgentLaunchCommand::ProbeHealth),
            AgentLaunchEvent::Health(healthy) => if healthy {
                (AgentLaunchPhase::Done, AgentLaunchCommand::ReportStarted)
            } else if probes + 1 >= AGENT_WARMUP_PROBES {
                (AgentLaunchPhase::Done, AgentLaunchCommand::ReportWarmingUp)
            } else {
                (AgentLaunchPhase::WarmingUp { probes: (probes + 1) as u32 }, AgentLaunchCommand::SleepHalfSecond)
            },
            _ => (phase, AgentLaunchCommand::Wait),
        },
        AgentLaunchPhase::Done => (phase, AgentLaunchCommand::Wait),
    }
}

pub fn agent_launch_step(phase: AgentLaunchPhase, event: AgentLaunchEvent) -> (r: (AgentLaunchPhase, AgentLaunchCommand))
    ensures
        r == launch_step_spec(phase, event),
{
    match phase {
        AgentLaunchPhase::Start => match event {
            AgentLaunchEvent::Begin { running } => if running {
                (AgentLaunchPhase::ConfirmingRunning, AgentLaunchCommand::ProbeHealth)
            } else {
                (AgentLaunchPhase::Locating, AgentLaunchCommand::LocateScript)
            },
            _ => (phase, AgentLaunchCommand::Wait),
        },
        AgentLaunchPhase::ConfirmingRunning => match event {
            AgentLaunchEvent::Health(healthy) => if healthy {
                (AgentLaunchPhase::Done, AgentLaunchCommand::ReportAlreadyRunning)
            } else {
                (AgentLaunchPhase::Locating, AgentLaunchCommand::LocateScript)
            },
            _ => (phase, AgentLaunchCommand::Wait),
        },
        AgentLaunchPhase::Locating => match event {
            AgentLaunchEvent::ScriptFound(found) => if found {
                (AgentLaunchPhase::Spawning, AgentLaunchCommand::Spawn)
            } else {
                (AgentLaunchPhase::Done, AgentLaunchCommand::ReportScriptMissing)
            },
            _ => (phase, AgentLaunchCommand::Wait),
        },
        AgentLaunchPhase::Spawning => match event {
            AgentLaunchEvent::Spawned(ok) => if ok {
                (AgentLaunchPhase::WarmingUp { probes: 0 }, AgentLaunchCommand::SleepHalfSecond)
            } else {
                (AgentLaunchPhase::Done, AgentLaunchCommand::ReportSpawnFailed)
            },
            _ => (phase, AgentLaunchCommand::Wait),
        },
        AgentLaunchPhase::WarmingUp { probes } => match event {
            AgentLaunchEvent::Slept => (phase, AgentLaunchCommand::ProbeHealth),
            AgentLaunchEvent::Health(healthy) => if healthy {
                (AgentLaunchPhase::Done, AgentLaunchCommand::ReportStarted)
            } else if probes >= AGENT_WARMUP_PROBES - 1 {
                (AgentLaunchPhase::Done, AgentLaunchCommand::ReportWarmingUp)
            } else {
                (AgentLaunchPhase::WarmingUp { probes: probes + 1 }, AgentLaunchCommand::SleepHalfSecond)
            },
            _ => (phase, AgentLaunchCommand::Wait),
        },
        AgentLaunchPhase::Done => (phase, AgentLaunchCommand::Wait),
    }
}

/// One warm-up round that fails: sleep, then a probe that finds no agent.
pub open spec fn failed_round(phase: AgentLaunchPhase) -> (AgentLaunchPhase, AgentLaunchCommand) {
    launch_step_spec(launch_step_spec(phase, AgentLaunchEvent::Slept).0, AgentLaunchEvent::Health(false))
}

/// The phase after `k` failed warm-up rounds.
pub open spec fn after_failed_rounds(phase: AgentLaunchPhase, k: nat) -> AgentLaunchPhase
    decreases k,
{
    if k == 0 {
        phase
    } else {
        failed_round(after_failed_rounds(phase, (k - 1) as nat)).0
    }
}

/// The warm-up phase after `probes` failed probes.
pub open spec fn warming(probes: u32) -> AgentLaunchPhase {
    AgentLaunchPhase::WarmingUp { probes }
}

/// The warm-up is bounded: from any probe count below twenty, the agent
/// that never answers is given up on (reported as warming up) after the
/// remaining rounds, and not before.
pub proof fn lemma_warmup_ends(probes: u32)
    requires
        probes < AGENT_WARMUP_PROBES,
    ensures
        after_failed_rounds(warming(probes), (AGENT_WARMUP_PROBES - probes) as nat) == AgentLaunchPhase::Done,
        forall|k: nat|
            k < AGENT_WARMUP_PROBES - probes ==> #[trigger] after_failed_rounds(warming(probes), k) == warming(
                (probes + k) as u32,
            ),
        failed_round(warming((AGENT_WARMUP_PROBES - 1) as u32)).1 == AgentLaunchCommand::ReportWarmingUp,
{
    assert forall|k: nat| k < AGENT_WARMUP_PROBES - probes implies #[trigger] after_failed_rounds(warming(probes), k)
        == warming((probes + k) as u32) by {
        lemma_rounds_count(probes, k);
    }
    let n = (AGENT_WARMUP_PROBES - probes) as nat;
    lemma_rounds_count(probes, (n - 1) as nat);
}

proof fn lemma_rounds_count(probes: u32, k: nat)
    requires
        probes + k < AGENT_WARMUP_PROBES,
    ensures
        after_failed_rounds(warming(probes), k) == warming((probes + k) as u32),
    decreases k,
{
    if k > 0 {
        lemma_rounds_count(probes, (k - 1) as nat);
    }
}

/// The answer when a running agent already answers.
pub fn agent_already_running_message(port: u16) -> (r: String)
    ensures
        r@ == "Agent already running on port "@ + decimal_spec(port as nat),
{
    let p = decimal(port as u128);
    concat2("Agent already running on port ", p.as_str())
}

/// The answer when the spawned agent answered.
pub fn agent_started_message(port: u16) -> (r: String)
    ensures
        r@ == "LangGraph agent started on port "@ + decimal_spec(port as nat),
{
    let p = decimal(port as u128);
    concat2("LangGraph agent started on port ", p.as_str())
}

/// The answer when the spawned agent has not answered yet.
pub fn agent_warming_message(port: u16) -> (r: String)
    ensures
        r@ == "Agent process spawned on port "@ + decimal_spec(port as nat) + " (still warming up...)"@,
{
    let p = decimal(port as u128);
    let mut r = concat2("Agent process spawned on port ", p.as_str());
    r.append(" (still warming up...)");
    r
}

} // verus!
