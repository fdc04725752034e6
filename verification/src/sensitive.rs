//! Sensitive-data guard: fifteen redaction passes over a text, each driven by
//! a regular expression, followed by a severity classification.
use vstd::prelude::*;
use crate::text::{chars_of, concat3, opt_view, strings_view, is_ascii_digit, is_digit_spec, lit, starts_with, starts_with_spec, str_eq, string_from_chars};

verus! {

broadcast use vstd::string::group_string_axioms;

// ─── Results ─────────────────────────────────────────────────────────────────

/// Outcome of scanning a text for sensitive data.
pub struct SensitiveScanResult {
    pub redacted_text: String,
    pub has_sensitive: bool,
    pub redaction_count: i64,
    pub detections: Vec<String>,
    pub severity: String,
}

// ─── Regular expressions (regex crate) ───────────────────────────────────────

/// One match of a regular expression: the matched text and its first group.
pub struct RegexHit {
    pub whole: String,
    pub group1: Option<String>,
}

/// The pieces of a text around the matches of a regular expression: the
/// `gaps` between matches (one more than there are matches) and the matches.
pub struct RegexScan {
    pub gaps: Vec<String>,
    pub hits: Vec<RegexHit>,
}

impl RegexScan {
    pub open spec fn gaps_v(&self) -> Seq<Seq<char>> {
        Seq::new(self.gaps@.len(), |i: int| self.gaps@[i]@)
    }

    pub open spec fn hits_v(&self) -> Seq<(Seq<char>, Option<Seq<char>>)> {
        Seq::new(self.hits@.len(), |i: int| (self.hits@[i].whole@, opt_view(self.hits@[i].group1)))
    }
}

/// The matched texts of a sequence of hits.
pub open spec fn wholes(h: Seq<(Seq<char>, Option<Seq<char>>)>) -> Seq<Seq<char>> {
    Seq::new(h.len(), |i: int| h[i].0)
}

/// `g[0] + p[0] + g[1] + ... + p[k-1] + g[k]`: the text rebuilt from the first
/// `k` pieces `p` and the gaps `g` around them.
pub open spec fn woven(g: Seq<Seq<char>>, p: Seq<Seq<char>>, k: nat) -> Seq<char>
    decreases k,
{
    if k == 0 {
        g[0]
    } else {
        woven(g, p, (k - 1) as nat) + p[k - 1] + g[k as int]
    }
}

/// What the regex crate finds for a pattern in a text: `None` where the
/// pattern does not compile, else the gaps between the matches (`Regex::split`)
/// and, for each match, its text and its first capture group
/// (`Regex::captures_iter`).
pub uninterp spec fn regex_scan_of(pattern: Seq<char>, text: Seq<char>) -> Option<
    (Seq<Seq<char>>, Seq<(Seq<char>, Option<Seq<char>>)>),
>;

/// Compiles `pattern` with `regex::Regex::new` and collects `Regex::split`
/// and `Regex::captures_iter` over `text`. Trusted: the result is the named
/// scan; there is one more gap than there are matches (the split spans run
/// from the end of one match to the start of the next, as the crate's
/// `Split` iterator shows); gaps and matches put back together in order give
/// the text.
#[verifier::external_body]
fn regex_scan(pattern: &str, text: &str) -> (r: Option<RegexScan>)
    ensures
        r is None <==> regex_scan_of(pattern@, text@) is None,
        r matches Some(s) ==> regex_scan_of(pattern@, text@) == Some((s.gaps_v(), s.hits_v())),
        r matches Some(s) ==> s.gaps@.len() == s.hits@.len() + 1,
        r matches Some(s) ==> woven(s.gaps_v(), wholes(s.hits_v()), s.hits@.len() as nat)
            == text@,
{
    let re = regex::Regex::new(pattern).ok()?;
    let gaps = re.split(text).map(|g| g.to_string()).collect();
    let hits = re.captures_iter(text).map(
        |c| RegexHit { whole: c[0].to_string(), group1: c.get(1).map(|g| g.as_str().to_string()) },
    ).collect();
    Some(RegexScan { gaps, hits })
}

proof fn lemma_woven_shift(g: Seq<Seq<char>>, p: Seq<Seq<char>>, k: nat)
    requires
        k + 1 < g.len(),
        k + 1 <= p.len(),
    ensures
        woven(g, p, k + 1) == g[0] + p[0] + woven(g.skip(1), p.skip(1), k),
    decreases k,
{
    if k == 0 {
        assert(woven(g, p, 1) == woven(g, p, 0) + p[0] + g[1]);
        assert(g.skip(1)[0] == g[1]);
    } else {
        lemma_woven_shift(g, p, (k - 1) as nat);
        assert(woven(g, p, k + 1) == woven(g, p, k) + p[k as int] + g[(k + 1) as int]);
        assert(woven(g.skip(1), p.skip(1), k) == woven(g.skip(1), p.skip(1), (k - 1) as nat)
            + p.skip(1)[k - 1] + g.skip(1)[k as int]);
        assert(p.skip(1)[k - 1] == p[k as int]);
        assert(g.skip(1)[k as int] == g[(k + 1) as int]);
        assert(woven(g, p, k + 1) =~= g[0] + p[0] + woven(g.skip(1), p.skip(1), k));
    }
}

/// The first match of `pattern` in `t` replaced by `marker` (`Regex::replace`
/// with a literal replacement); `t` itself where the pattern finds nothing.
pub open spec fn replace_first_spec(pattern: Seq<char>, t: Seq<char>, marker: Seq<char>) -> Seq<
    char,
> {
    match regex_scan_of(pattern, t) {
        Some((g, h)) => if h.len() > 0 {
            g[0] + marker + woven(g.skip(1), wholes(h).skip(1), (h.len() - 1) as nat)
        } else {
            t
        },
        None => t,
    }
}

fn replace_first(pattern: &str, t: &String, marker: &str) -> (r: String)
    ensures
        r@ == replace_first_spec(pattern@, t@, marker@),
{
    let scan = regex_scan(pattern, t.as_str());
    match scan {
        None => t.clone(),
        Some(s) => {
            if s.hits.len() == 0 {
                return t.clone();
            }
            let ghost g = s.gaps_v();
            let ghost w = wholes(s.hits_v());
            let mut out = concat3(s.gaps[0].as_str(), marker, s.gaps[1].as_str());
            let n = s.hits.len();
            let mut k: usize = 1;
            while k < n
                invariant
                    1 <= k <= n,
                    n == s.hits@.len(),
                    s.gaps@.len() == n + 1,
                    g == s.gaps_v(),
                    w == wholes(s.hits_v()),
                    out@ == g[0] + marker@ + woven(g.skip(1), w.skip(1), (k - 1) as nat),
                decreases n - k,
            {
                out.append(s.hits[k].whole.as_str());
                out.append(s.gaps[k + 1].as_str());
                proof {
                    let gs = g.skip(1);
                    let ws = w.skip(1);
                    assert(woven(gs, ws, k as nat) == woven(gs, ws, (k - 1) as nat) + ws[k - 1]
                        + gs[k as int]);
                    assert(ws[k - 1] == w[k as int]);
                    assert(gs[k as int] == g[k + 1]);
                    assert(out@ =~= g[0] + marker@ + woven(gs, ws, k as nat));
                }
                k = k + 1;
            }
            out
        },
    }
}

// ─── Luhn checksum ───────────────────────────────────────────────────────────

pub open spec fn digit_value(c: char) -> nat {
    (c as u32 - '0' as u32) as nat
}

/// Luhn sum of a digit string read from the right; `alt` marks the digits
/// that are doubled (every second one, starting with the second from the right).
pub open spec fn luhn_sum_spec(s: Seq<char>, alt: bool) -> nat
    decreases s.len(),
{
    if s.len() == 0 {
        0
    } else {
        let d = digit_value(s.last());
        let v = if alt {
            if 2 * d > 9 {
                (2 * d - 9) as nat
            } else {
                2 * d
            }
        } else {
            d
        };
        v + luhn_sum_spec(s.drop_last(), !alt)
    }
}

pub open spec fn all_digits(s: Seq<char>) -> bool {
    forall|i: int| 0 <= i < s.len() ==> is_digit_spec(s[i])
}

/// A card number that passes the Luhn check: 13 to 19 decimal digits whose
/// Luhn sum is a multiple of ten. (A string of ASCII digits has as many bytes
/// as characters, so the byte-length bounds are the character-count bounds.)
pub open spec fn luhn_spec(s: Seq<char>) -> bool {
    &&& all_digits(s)
    &&& 13 <= s.len() <= 19
    &&& luhn_sum_spec(s, false) % 10 == 0
}

proof fn lemma_luhn_sum_bound(s: Seq<char>, alt: bool)
    requires
        all_digits(s),
    ensures
        luhn_sum_spec(s, alt) <= 9 * s.len(),
    decreases s.len(),
{
    if s.len() > 0 {
        assert(all_digits(s.drop_last()));
        lemma_luhn_sum_bound(s.drop_last(), !alt);
    }
}

/// Validates a card number with the Luhn checksum.
pub fn luhn_check(card_digits: &str) -> (r: bool)
    ensures
        r == luhn_spec(card_digits@),
{
    let v = chars_of(card_digits);
    let mut i: usize = 0;
    while i < v.len()
        invariant
            v@ == card_digits@,
            i <= v@.len(),
            forall|k: int| 0 <= k < i ==> is_digit_spec(v@[k]),
        decreases v@.len() - i,
    {
        if !is_ascii_digit(v[i]) {
            assert(!is_digit_spec(card_digits@[i as int]));
            return false;
        }
        i = i + 1;
    }
    if v.len() < 13 || v.len() > 19 {
        return false;
    }
    let mut sum: u32 = 0;
    let mut alt = false;
    let mut j: usize = v.len();
    assert(v@.take(j as int) =~= v@);
    while j > 0
        invariant
            v@ == card_digits@,
            j <= v@.len() <= 19,
            all_digits(v@),
            sum + luhn_sum_spec(v@.take(j as int), alt) == luhn_sum_spec(v@, false),
            sum <= 18 * (v@.len() - j),
        decreases j,
    {
        let ghost pre = v@.take(j as int);
        let c = v[j - 1];
        let mut d: u32 = c as u32 - '0' as u32;
        if alt {
            d = d * 2;
            if d > 9 {
                d = d - 9;
            }
        }
        proof {
            assert(pre.last() == c);
            assert(pre.drop_last() =~= v@.take(j - 1));
        }
        sum = sum + d;
        alt = !alt;
        j = j - 1;
    }
    sum % 10 == 0
}

// ─── Detection labels ────────────────────────────────────────────────────────

/// The detection labels, in alphabetical order.
pub open spec fn label_spec(i: nat) -> Seq<char> {
    if i == 0 {
        "api_key_or_token"@
    } else if i == 1 {
        "auth_header"@
    } else if i == 2 {
        "aws_access_key"@
    } else if i == 3 {
        "bank_account_or_routing"@
    } else if i == 4 {
        "card_number"@
    } else if i == 5 {
        "connection_string"@
    } else if i == 6 {
        "cvv"@
    } else if i == 7 {
        "email_address"@
    } else if i == 8 {
        "ip_address"@
    } else if i == 9 {
        "jwt_token"@
    } else if i == 10 {
        "national_id_or_ssn"@
    } else if i == 11 {
        "otp_or_2fa"@
    } else if i == 12 {
        "password"@
    } else if i == 13 {
        "phone_number"@
    } else {
        "private_key"@
    }
}

pub const LABEL_COUNT: usize = 15;

fn label_str(i: usize) -> (r: &'static str)
    requires
        i < LABEL_COUNT,
    ensures
        r@ == label_spec(i as nat),
{
    if i == 0 {
        "api_key_or_token"
    } else if i == 1 {
        "auth_header"
    } else if i == 2 {
        "aws_access_key"
    } else if i == 3 {
        "bank_account_or_routing"
    } else if i == 4 {
        "card_number"
    } else if i == 5 {
        "connection_string"
    } else if i == 6 {
        "cvv"
    } else if i == 7 {
        "email_address"
    } else if i == 8 {
        "ip_address"
    } else if i == 9 {
        "jwt_token"
    } else if i == 10 {
        "national_id_or_ssn"
    } else if i == 11 {
        "otp_or_2fa"
    } else if i == 12 {
        "password"
    } else if i == 13 {
        "phone_number"
    } else {
        "private_key"
    }
}

/// Labels whose presence makes the severity "critical".
pub open spec fn is_critical_label(i: nat) -> bool {
    i == 14 || i == 2 || i == 0 || i == 1 || i == 9 || i == 12 || i == 5
}

/// Labels whose presence makes the severity at least "high".
pub open spec fn is_high_label(i: nat) -> bool {
    i == 4 || i == 10 || i == 3 || i == 6 || i == 11
}

// ─── The redaction passes ────────────────────────────────────────────────────

pub const PASS_COUNT: usize = 15;

/// The pattern of each pass, in the order the passes run.
pub open spec fn pass_pattern(p: nat) -> Seq<char> {
    if p == 0 {
        r"(?s)-----BEGIN\s[A-Z ]*PRIVATE\sKEY-----.+?-----END\s[A-Z ]*PRIVATE\sKEY-----"@
    } else if p == 1 {
        r"\bAKIA[0-9A-Z]{16}\b"@
    } else if p == 2 {
        r"(?i)\b(?:sk[-_][a-zA-Z0-9]{20,}|gh[poushr]_[A-Za-z0-9]{36,}|xox[baprs]-[A-Za-z0-9\-]{10,}|xapp-[A-Za-z0-9\-]{10,}|hf_[A-Za-z0-9]{34,}|dhp_[A-Za-z0-9]{30,})\b"@
    } else if p == 3 {
        r"(?i)(authorization\s*:\s*(?:bearer|basic|token))\s+\S+"@
    } else if p == 4 {
        r"\bey[A-Za-z0-9_-]{10,}\.[A-Za-z0-9_-]{10,}\.[A-Za-z0-9_-]{10,}\b"@
    } else if p == 5 {
        r"(?i)\b(password|passwd|pwd)\b\s*[:=]\s*\S+"@
    } else if p == 6 {
        r"(?i)\b(?:otp|2fa|verification|passcode|auth(?:entication)?\s*code)\b[^\n]{0,30}\b\d{4,8}\b"@
    } else if p == 7 {
        r"(?i)\b(cvv|cvc)\b\s*[:=]?\s*\d{3,4}\b"@
    } else if p == 8 {
        r"\b\d{3}-\d{2}-\d{4}\b"@
    } else if p == 9 {
        r"(?i)\b(account|acct|routing)\b[^\n]{0,20}\b\d{6,17}\b"@
    } else if p == 10 {
        r"\b(?:\d[ -]*?){13,19}\b"@
    } else if p == 11 {
        r"\b[A-Za-z0-9._%+\-]+@[A-Za-z0-9.\-]+\.[A-Za-z]{2,}\b"@
    } else if p == 12 {
        r"(?:(?:\+\d{1,3}[\s\-]?)?\(?\d{3}\)?[\s\-]?\d{3}[\s\-]?\d{4})\b"@
    } else if p == 13 {
        r"\b(?:(?:25[0-5]|2[0-4]\d|[01]?\d\d?)\.){3}(?:25[0-5]|2[0-4]\d|[01]?\d\d?)\b"@
    } else {
        r"(?i)(mongodb|postgres|mysql|redis|amqp|smtp)(://\S+)"@
    }
}

fn pass_pattern_str(p: usize) -> (r: &'static str)
    requires
        p < PASS_COUNT,
    ensures
        r@ == pass_pattern(p as nat),
{
    if p == 0 {
        r"(?s)-----BEGIN\s[A-Z ]*PRIVATE\sKEY-----.+?-----END\s[A-Z ]*PRIVATE\sKEY-----"
    } else if p == 1 {
        r"\bAKIA[0-9A-Z]{16}\b"
    } else if p == 2 {
        r"(?i)\b(?:sk[-_][a-zA-Z0-9]{20,}|gh[poushr]_[A-Za-z0-9]{36,}|xox[baprs]-[A-Za-z0-9\-]{10,}|xapp-[A-Za-z0-9\-]{10,}|hf_[A-Za-z0-9]{34,}|dhp_[A-Za-z0-9]{30,})\b"
    } else if p == 3 {
        r"(?i)(authorization\s*:\s*(?:bearer|basic|token))\s+\S+"
    } else if p == 4 {
        r"\bey[A-Za-z0-9_-]{10,}\.[A-Za-z0-9_-]{10,}\.[A-Za-z0-9_-]{10,}\b"
    } else if p == 5 {
        r"(?i)\b(password|passwd|pwd)\b\s*[:=]\s*\S+"
    } else if p == 6 {
        r"(?i)\b(?:otp|2fa|verification|passcode|auth(?:entication)?\s*code)\b[^\n]{0,30}\b\d{4,8}\b"
    } else if p == 7 {
        r"(?i)\b(cvv|cvc)\b\s*[:=]?\s*\d{3,4}\b"
    } else if p == 8 {
        r"\b\d{3}-\d{2}-\d{4}\b"
    } else if p == 9 {
        r"(?i)\b(account|acct|routing)\b[^\n]{0,20}\b\d{6,17}\b"
    } else if p == 10 {
        r"\b(?:\d[ -]*?){13,19}\b"
    } else if p == 11 {
        r"\b[A-Za-z0-9._%+\-]+@[A-Za-z0-9.\-]+\.[A-Za-z]{2,}\b"
    } else if p == 12 {
        r"(?:(?:\+\d{1,3}[\s\-]?)?\(?\d{3}\)?[\s\-]?\d{3}[\s\-]?\d{4})\b"
    } else if p == 13 {
        r"\b(?:(?:25[0-5]|2[0-4]\d|[01]?\d\d?)\.){3}(?:25[0-5]|2[0-4]\d|[01]?\d\d?)\b"
    } else {
        r"(?i)(mongodb|postgres|mysql|redis|amqp|smtp)(://\S+)"
    }
}

/// The label that each pass raises.
pub open spec fn pass_label(p: nat) -> nat {
    if p == 0 {
        14
    } else if p == 1 {
        2
    } else if p == 2 {
        0
    } else if p == 3 {
        1
    } else if p == 4 {
        9
    } else if p == 5 {
        12
    } else if p == 6 {
        11
    } else if p == 7 {
        6
    } else if p == 8 {
        10
    } else if p == 9 {
        3
    } else if p == 10 {
        4
    } else if p == 11 {
        7
    } else if p == 12 {
        13
    } else if p == 13 {
        8
    } else {
        5
    }
}

fn pass_label_index(p: usize) -> (r: usize)
    requires
        p < PASS_COUNT,
    ensures
        r == pass_label(p as nat),
        r < LABEL_COUNT,
{
    if p == 0 {
        14
    } else if p == 1 {
        2
    } else if p == 2 {
        0
    } else if p == 3 {
        1
    } else if p == 4 {
        9
    } else if p == 5 {
        12
    } else if p == 6 {
        11
    } else if p == 7 {
        6
    } else if p == 8 {
        10
    } else if p == 9 {
        3
    } else if p == 10 {
        4
    } else if p == 11 {
        7
    } else if p == 12 {
        13
    } else if p == 13 {
        8
    } else {
        5
    }
}

/// The ASCII digits of a text, in order.
pub open spec fn digits_of(s: Seq<char>) -> Seq<char>
    decreases s.len(),
{
    if s.len() == 0 {
        s
    } else if is_digit_spec(s.last()) {
        digits_of(s.drop_last()).push(s.last())
    } else {
        digits_of(s.drop_last())
    }
}

/// A group's text, or a default where the group did not take part in the match.
pub open spec fn group_or(g: Option<Seq<char>>, d: Seq<char>) -> Seq<char> {
    match g {
        Some(v) => v,
        None => d,
    }
}

/// An IPv4 address that is left in place: `0.x`, `255.x` or the loopback address.
pub open spec fn kept_ip(ip: Seq<char>) -> bool {
    starts_with_spec(ip, "0."@) || starts_with_spec(ip, "255."@) || ip == "127.0.0.1"@
}

/// What replaces one match of pass `p`.
pub open spec fn hit_replacement(p: nat, whole: Seq<char>, g1: Option<Seq<char>>) -> Seq<char> {
    if p == 0 {
        "[REDACTED_PRIVATE_KEY]"@
    } else if p == 1 {
        "[REDACTED_AWS_KEY]"@
    } else if p == 2 {
        "[REDACTED_API_KEY]"@
    } else if p == 3 {
        group_or(g1, "authorization"@) + " [REDACTED_AUTH_VALUE]"@
    } else if p == 4 {
        "[REDACTED_JWT]"@
    } else if p == 5 {
        group_or(g1, "password"@) + "=[REDACTED_PASSWORD]"@
    } else if p == 6 {
        replace_first_spec(r"\d{4,8}"@, whole, "[REDACTED_OTP]"@)
    } else if p == 7 {
        group_or(g1, "cvv"@) + " [REDACTED_CVV]"@
    } else if p == 8 {
        "[REDACTED_SSN]"@
    } else if p == 9 {
        replace_first_spec(r"\d{6,17}"@, whole, "[REDACTED_ACCOUNT]"@)
    } else if p == 10 {
        if luhn_spec(digits_of(whole)) {
            "[REDACTED_CARD]"@
        } else {
            whole
        }
    } else if p == 11 {
        "[REDACTED_EMAIL]"@
    } else if p == 12 {
        "[REDACTED_PHONE]"@
    } else if p == 13 {
        if kept_ip(whole) {
            whole
        } else {
            "[REDACTED_IP]"@
        }
    } else {
        group_or(g1, "service"@) + ":[REDACTED_DSN]"@
    }
}

/// Whether a match of pass `p` is replaced, counted and raises the pass's
/// label: every match is, except card candidates that fail the Luhn check and
/// the IPv4 addresses that are kept (see `kept_ip`); those stay as they are.
pub open spec fn hit_raises(p: nat, whole: Seq<char>) -> bool {
    (p != 10 || luhn_spec(digits_of(whole))) && (p != 13 || !kept_ip(whole))
}

/// How many of the matches `h` of pass `p` are replaced and counted.
pub open spec fn raising_count(p: nat, h: Seq<(Seq<char>, Option<Seq<char>>)>) -> nat
    decreases h.len(),
{
    if h.len() == 0 {
        0
    } else {
        raising_count(p, h.drop_last()) + if hit_raises(p, h.last().0) {
            1nat
        } else {
            0nat
        }
    }
}

/// Every match of the private-key, AWS-key, API-token, JWT, SSN, email and
/// phone passes becomes that pass's marker, is counted, and raises the
/// pass's label.
pub proof fn lemma_marker_passes(w: Seq<char>, g: Option<Seq<char>>)
    ensures
        hit_replacement(0, w, g) == "[REDACTED_PRIVATE_KEY]"@ && hit_raises(0, w)
            && label_spec(pass_label(0)) == "private_key"@,
        hit_replacement(1, w, g) == "[REDACTED_AWS_KEY]"@ && hit_raises(1, w)
            && label_spec(pass_label(1)) == "aws_access_key"@,
        hit_replacement(2, w, g) == "[REDACTED_API_KEY]"@ && hit_raises(2, w)
            && label_spec(pass_label(2)) == "api_key_or_token"@,
        hit_replacement(4, w, g) == "[REDACTED_JWT]"@ && hit_raises(4, w)
            && label_spec(pass_label(4)) == "jwt_token"@,
        hit_replacement(8, w, g) == "[REDACTED_SSN]"@ && hit_raises(8, w)
            && label_spec(pass_label(8)) == "national_id_or_ssn"@,
        hit_replacement(11, w, g) == "[REDACTED_EMAIL]"@ && hit_raises(11, w)
            && label_spec(pass_label(11)) == "email_address"@,
        hit_replacement(12, w, g) == "[REDACTED_PHONE]"@ && hit_raises(12, w)
            && label_spec(pass_label(12)) == "phone_number"@,
{
}

/// Which matches are counted: every match of every pass, but for card
/// candidates that fail the Luhn check and the IPv4 addresses that are kept,
/// which stay as they are; a counted card or address becomes its marker.
pub proof fn lemma_counted_matches(p: nat, w: Seq<char>, g: Option<Seq<char>>)
    requires
        p < 15,
    ensures
        p != 10 && p != 13 ==> hit_raises(p, w),
        p == 10 ==> (hit_raises(p, w) <==> luhn_spec(digits_of(w))),
        p == 13 ==> (hit_raises(p, w) <==> !kept_ip(w)),
        (p == 10 || p == 13) && !hit_raises(p, w) ==> hit_replacement(p, w, g) == w,
        p == 10 && hit_raises(p, w) ==> hit_replacement(p, w, g) == "[REDACTED_CARD]"@,
        p == 13 && hit_raises(p, w) ==> hit_replacement(p, w, g) == "[REDACTED_IP]"@,
        label_spec(pass_label(10)) == "card_number"@,
        label_spec(pass_label(13)) == "ip_address"@,
{
}

/// In every pass but the card and address passes, all the matches are
/// counted.
pub proof fn lemma_every_match_counted(p: nat, h: Seq<(Seq<char>, Option<Seq<char>>)>)
    requires
        p < 15,
        p != 10,
        p != 13,
    ensures
        raising_count(p, h) == h.len(),
    decreases h.len(),
{
    if h.len() > 0 {
        lemma_every_match_counted(p, h.drop_last());
    }
}

/// A phone pass that finds matches replaces each of them with
/// `[REDACTED_PHONE]`, counts them all and raises `phone_number`.
pub proof fn lemma_phone_pass(
    st: PassState,
    g: Seq<Seq<char>>,
    h: Seq<(Seq<char>, Option<Seq<char>>)>,
)
    requires
        regex_scan_of(pass_pattern(12), st.0) == Some((g, h)),
        h.len() > 0,
        st.2.len() == 15,
    ensures
        pass_spec(12, st).0 == woven(g, Seq::new(h.len(), |k: int| "[REDACTED_PHONE]"@), h.len()),
        pass_spec(12, st).1 == st.1 + h.len(),
        pass_spec(12, st).2[13],
        label_spec(13) == "phone_number"@,
{
    lemma_every_match_counted(12, h);
    assert(pass_replacements(12, h) =~= Seq::new(h.len(), |k: int| "[REDACTED_PHONE]"@));
}

fn digits_in(s: &String) -> (r: String)
    ensures
        r@ == digits_of(s@),
{
    let v = chars_of(s.as_str());
    let mut out: Vec<char> = Vec::new();
    let mut i: usize = 0;
    assert(v@.take(0) =~= Seq::<char>::empty());
    while i < v.len()
        invariant
            i <= v@.len(),
            out@ == digits_of(v@.take(i as int)),
        decreases v@.len() - i,
    {
        proof {
            assert(v@.take(i + 1).drop_last() =~= v@.take(i as int));
            assert(v@.take(i + 1).last() == v@[i as int]);
        }
        if is_ascii_digit(v[i]) {
            out.push(v[i]);
        }
        i = i + 1;
    }
    assert(v@.take(v@.len() as int) =~= v@);
    string_from_chars(out.as_slice())
}

fn group_or_default(g: &Option<String>, d: &str) -> (r: String)
    ensures
        r@ == group_or(opt_view(*g), d@),
{
    match g {
        Some(v) => v.clone(),
        None => lit(d),
    }
}

fn replace_hit(p: usize, hit: &RegexHit) -> (r: (String, bool))
    requires
        p < PASS_COUNT,
    ensures
        r.0@ == hit_replacement(p as nat, hit.whole@, opt_view(hit.group1)),
        r.1 == hit_raises(p as nat, hit.whole@),
        !r.1 ==> r.0@ == hit.whole@,
{
    if p == 0 {
        (lit("[REDACTED_PRIVATE_KEY]"), true)
    } else if p == 1 {
        (lit("[REDACTED_AWS_KEY]"), true)
    } else if p == 2 {
        (lit("[REDACTED_API_KEY]"), true)
    } else if p == 3 {
        let mut s = group_or_default(&hit.group1, "authorization");
        s.append(" [REDACTED_AUTH_VALUE]");
        (s, true)
    } else if p == 4 {
        (lit("[REDACTED_JWT]"), true)
    } else if p == 5 {
        let mut s = group_or_default(&hit.group1, "password");
        s.append("=[REDACTED_PASSWORD]");
        (s, true)
    } else if p == 6 {
        (replace_first(r"\d{4,8}", &hit.whole, "[REDACTED_OTP]"), true)
    } else if p == 7 {
        let mut s = group_or_default(&hit.group1, "cvv");
        s.append(" [REDACTED_CVV]");
        (s, true)
    } else if p == 8 {
        (lit("[REDACTED_SSN]"), true)
    } else if p == 9 {
        (replace_first(r"\d{6,17}", &hit.whole, "[REDACTED_ACCOUNT]"), true)
    } else if p == 10 {
        let digits = digits_in(&hit.whole);
        if luhn_check(digits.as_str()) {
            (lit("[REDACTED_CARD]"), true)
        } else {
            (hit.whole.clone(), false)
        }
    } else if p == 11 {
        (lit("[REDACTED_EMAIL]"), true)
    } else if p == 12 {
        (lit("[REDACTED_PHONE]"), true)
    } else if p == 13 {
        let w = hit.whole.as_str();
        if starts_with(w, "0.") || starts_with(w, "255.") || str_eq(w, "127.0.0.1") {
            (hit.whole.clone(), false)
        } else {
            (lit("[REDACTED_IP]"), true)
        }
    } else {
        let mut s = group_or_default(&hit.group1, "service");
        s.append(":[REDACTED_DSN]");
        (s, true)
    }
}

/// The state the passes thread through: the text so far, the number of
/// replacements so far, and one flag per label.
pub type PassState = (Seq<char>, nat, Seq<bool>);

/// Replacements of all the matches of pass `p`.
pub open spec fn pass_replacements(p: nat, h: Seq<(Seq<char>, Option<Seq<char>>)>) -> Seq<
    Seq<char>,
> {
    Seq::new(h.len(), |k: int| hit_replacement(p, h[k].0, h[k].1))
}

/// One redaction pass: where the pattern compiles, each match is put through
/// `hit_replacement`; the matches that `hit_raises` picks are counted and
/// raise the pass's label, the others stay as they were.
pub open spec fn pass_spec(p: nat, st: PassState) -> PassState {
    match regex_scan_of(pass_pattern(p), st.0) {
        None => st,
        Some((g, h)) => (
            woven(g, pass_replacements(p, h), h.len()),
            st.1 + raising_count(p, h),
            if raising_count(p, h) > 0 {
                st.2.update(pass_label(p) as int, true)
            } else {
                st.2
            },
        ),
    }
}

/// The state after the first `n` passes over `input`.
pub open spec fn passes_spec(n: nat, input: Seq<char>) -> PassState
    decreases n,
{
    if n == 0 {
        (input, 0, Seq::new(15, |i: int| false))
    } else {
        pass_spec((n - 1) as nat, passes_spec((n - 1) as nat, input))
    }
}

/// The labels whose flags are set among the first `k`, in label order.
pub open spec fn labels_upto(flags: Seq<bool>, k: nat) -> Seq<Seq<char>>
    decreases k,
{
    if k == 0 {
        Seq::empty()
    } else if flags[k - 1] {
        labels_upto(flags, (k - 1) as nat).push(label_spec((k - 1) as nat))
    } else {
        labels_upto(flags, (k - 1) as nat)
    }
}

pub open spec fn any_flag(flags: Seq<bool>, critical: bool) -> bool {
    exists|i: int|
        0 <= i < 15 && flags[i] && (if critical {
            is_critical_label(i as nat)
        } else {
            is_high_label(i as nat)
        })
}

/// Severity from the raised labels and the number of matches.
pub open spec fn severity_spec(flags: Seq<bool>, count: nat) -> Seq<char> {
    if any_flag(flags, true) {
        "critical"@
    } else if any_flag(flags, false) {
        "high"@
    } else if count > 0 {
        "medium"@
    } else {
        "none"@
    }
}

/// Runs pass `p` over `text`.
fn run_pass(p: usize, text: &String, count: &mut u64, flags: &mut Vec<bool>) -> (r: String)
    requires
        p < PASS_COUNT,
        old(flags)@.len() == 15,
    ensures
        ({
            let st = pass_spec(p as nat, (text@, 0, old(flags)@));
            &&& r@ == st.0
            &&& final(flags)@ == st.2
            &&& *final(count) == (if *old(count) + st.1 > u64::MAX {
                u64::MAX as int
            } else {
                *old(count) + st.1
            })
        }),
        final(flags)@.len() == 15,
        (regex_scan_of(pass_pattern(p as nat), text@) matches Some((g, h)) && raising_count(
            p as nat,
            h,
        ) == 0) ==> r@ == text@,
{
    let scan = regex_scan(pass_pattern_str(p), text.as_str());
    match scan {
        None => text.clone(),
        Some(s) => {
            let n = s.hits.len();
            let ghost g = s.gaps_v();
            let ghost h = s.hits_v();
            let ghost reps = pass_replacements(p as nat, h);
            let mut out = s.gaps[0].clone();
            let mut raised: u64 = 0;
            let mut k: usize = 0;
            assert(h.take(0) =~= Seq::<(Seq<char>, Option<Seq<char>>)>::empty());
            while k < n
                invariant
                    p < PASS_COUNT,
                    k <= n,
                    n == s.hits@.len(),
                    s.gaps@.len() == n + 1,
                    g == s.gaps_v(),
                    h == s.hits_v(),
                    reps == pass_replacements(p as nat, h),
                    out@ == woven(g, reps, k as nat),
                    raised == raising_count(p as nat, h.take(k as int)),
                    raised <= k,
                    raised == 0 ==> out@ == woven(g, wholes(h), k as nat),
                decreases n - k,
            {
                let (rep, raise) = replace_hit(p, &s.hits[k]);
                out.append(rep.as_str());
                out.append(s.gaps[k + 1].as_str());
                proof {
                    assert(h[k as int].0 == s.hits@[k as int].whole@);
                    assert(reps[k as int] == rep@);
                    assert(out@ =~= woven(g, reps, (k + 1) as nat));
                    assert(h.take(k + 1).drop_last() =~= h.take(k as int));
                    assert(h.take(k + 1).last() == h[k as int]);
                    if raised == 0 && !raise {
                        assert(wholes(h)[k as int] == rep@);
                        assert(out@ =~= woven(g, wholes(h), (k + 1) as nat));
                    }
                }
                if raise {
                    raised = raised + 1;
                }
                k = k + 1;
            }
            proof {
                assert(h.take(n as int) =~= h);
            }
            *count = count.saturating_add(raised);
            if raised > 0 {
                let li = pass_label_index(p);
                flags.set(li, true);
            }
            out
        },
    }
}

/// What a scan of `input` reports: the text after the fifteen passes, the
/// number of replacements (saturating at `i64::MAX`), whether there was any,
/// the labels raised (in label order) and the severity; a text with nothing
/// found comes back unchanged, with no label and severity "none".
pub open spec fn scan_outcome(input: Seq<char>, res: SensitiveScanResult) -> bool {
    let st = passes_spec(15, input);
    &&& res.redacted_text@ == st.0
    &&& res.redaction_count == (if st.1 > i64::MAX {
        i64::MAX as int
    } else {
        st.1 as int
    })
    &&& res.has_sensitive == (st.1 > 0)
    &&& strings_view(res.detections@) == labels_upto(st.2, 15)
    &&& res.severity@ == severity_spec(st.2, st.1)
    &&& (st.1 == 0 ==> res.redacted_text@ == input && res.detections@.len() == 0 && res.severity@ == "none"@)
}

/// Scans a text for sensitive data and redacts it: fifteen passes (private
/// keys, AWS keys, API tokens, auth headers, JWTs, passwords, OTP codes, CVVs,
/// SSNs, bank accounts, Luhn-valid card numbers, emails, phone numbers, IPv4
/// addresses, connection strings) each replace their matches; the severity is
/// "critical", "high", "medium" or "none" by the labels raised.
pub fn scan_and_redact(input: &str) -> (r: Result<SensitiveScanResult, String>)
    ensures
        r is Ok,
        r matches Ok(res) ==> scan_outcome(input@, res),
{
    let mut text = lit(input);
    let mut count: u64 = 0;
    let mut flags: Vec<bool> = Vec::new();
    let mut i: usize = 0;
    while i < LABEL_COUNT
        invariant
            i <= 15,
            flags@ == Seq::new(i as nat, |j: int| false),
        decreases 15 - i,
    {
        flags.push(false);
        assert(flags@ =~= Seq::new((i + 1) as nat, |j: int| false));
        i = i + 1;
    }
    let mut p: usize = 0;
    while p < PASS_COUNT
        invariant
            p <= 15,
            flags@.len() == 15,
            text@ == passes_spec(p as nat, input@).0,
            flags@ == passes_spec(p as nat, input@).2,
            count == (if passes_spec(p as nat, input@).1 > u64::MAX {
                u64::MAX as int
            } else {
                passes_spec(p as nat, input@).1 as int
            }),
            passes_spec(p as nat, input@).1 == 0 ==> text@ == input@,
        decreases 15 - p,
    {
        let ghost before = passes_spec(p as nat, input@);
        let next = run_pass(p, &text, &mut count, &mut flags);
        proof {
            let after = passes_spec((p + 1) as nat, input@);
            assert(after == pass_spec(p as nat, before));
            if after.1 == 0 {
                match regex_scan_of(pass_pattern(p as nat), before.0) {
                    Some((g, h)) => {
                        assert(raising_count(p as nat, h) == 0);
                    },
                    None => {},
                }
            }
        }
        text = next;
        p = p + 1;
    }
    let ghost fin = passes_spec(15, input@);
    // Labels in order.
    let mut detections: Vec<String> = Vec::new();
    let mut k: usize = 0;
    while k < LABEL_COUNT
        invariant
            k <= 15,
            flags@.len() == 15,
            strings_view(detections@) == labels_upto(flags@, k as nat),
        decreases 15 - k,
    {
        if flags[k] {
            detections.push(lit(label_str(k)));
            assert(strings_view(detections@) =~= labels_upto(flags@, (k + 1) as nat));
        }
        k = k + 1;
    }
    // Severity.
    let mut critical = false;
    let mut high = false;
    let mut m: usize = 0;
    while m < LABEL_COUNT
        invariant
            m <= 15,
            flags@.len() == 15,
            critical <==> exists|i: int| 0 <= i < m && flags@[i] && is_critical_label(i as nat),
            high <==> exists|i: int| 0 <= i < m && flags@[i] && is_high_label(i as nat),
        decreases 15 - m,
    {
        if flags[m] {
            if m == 14 || m == 2 || m == 0 || m == 1 || m == 9 || m == 12 || m == 5 {
                critical = true;
            }
            if m == 4 || m == 10 || m == 3 || m == 6 || m == 11 {
                high = true;
            }
        }
        m = m + 1;
    }
    let severity = if critical {
        lit("critical")
    } else if high {
        lit("high")
    } else if count > 0 {
        lit("medium")
    } else {
        lit("none")
    };
    let redaction_count: i64 = if count > i64::MAX as u64 {
        i64::MAX
    } else {
        count as i64
    };
    proof {
        if fin.1 == 0 {
            assert(labels_upto(flags@, 15) =~= Seq::<Seq<char>>::empty()) by {
                lemma_no_flags_when_no_hits(15, input@);
                lemma_labels_empty(flags@, 15);
            }
            lemma_no_flags_when_no_hits(15, input@);
        }
    }
    Ok(
        SensitiveScanResult {
            redacted_text: text,
            has_sensitive: count > 0,
            redaction_count,
            detections,
            severity,
        },
    )
}

proof fn lemma_labels_empty(flags: Seq<bool>, k: nat)
    requires
        k <= flags.len(),
        forall|i: int| 0 <= i < flags.len() ==> !flags[i],
    ensures
        labels_upto(flags, k) == Seq::<Seq<char>>::empty(),
    decreases k,
{
    if k > 0 {
        lemma_labels_empty(flags, (k - 1) as nat);
    }
}

proof fn lemma_no_flags_when_no_hits(n: nat, input: Seq<char>)
    requires
        passes_spec(n, input).1 == 0,
    ensures
        forall|i: int|
            0 <= i < passes_spec(n, input).2.len() ==> !#[trigger] passes_spec(n, input).2[i],
        passes_spec(n, input).2.len() == 15,
    decreases n,
{
    if n > 0 {
        let before = passes_spec((n - 1) as nat, input);
        assert(passes_spec(n, input) == pass_spec((n - 1) as nat, before));
        match regex_scan_of(pass_pattern((n - 1) as nat), before.0) {
            Some((g, h)) => {
                assert(raising_count((n - 1) as nat, h) == 0);
                assert(before.1 == 0);
            },
            None => {},
        }
        lemma_no_flags_when_no_hits((n - 1) as nat, input);
    }
}

/// Scans text for sensitive data (the command the overlay calls).
pub fn inspect_sensitive_text(text: String) -> (r: Result<SensitiveScanResult, String>)
    ensures
        r is Ok,
        r matches Ok(res) ==> scan_outcome(text@, res),
{
    scan_and_redact(text.as_str())
}

} // verus!
