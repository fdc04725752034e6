//! Dashboard widgets: weather descriptions, holidays, the security toolkit
//! (URL scan, breach check, network trace, passwords), quick utilities
//! (exchange rates, dictionary), the self-review paths and Markdown.
use vstd::prelude::*;
use rand::Rng;
use crate::text::{
    chars_of, concat2, concat3, decimal, decimal_spec, lit, opt_view, replace, replace_spec, signed_decimal,
    signed_decimal_spec, str_eq, string_from_chars, strings_view, to_uppercase, trim, trim_chars, trim_spec,
    uppercase_of, slice_vec, clone_opt,
};

verus! {

broadcast use vstd::string::group_string_axioms;

// ─── Weather ─────────────────────────────────────────────────────────────────

/// The description and icon of a WMO weather code.
pub open spec fn weather_spec(code: u32) -> (Seq<char>, Seq<char>) {
    if code == 0 {
        ("Clear sky"@, "☀️"@)
    } else if code == 1 {
        ("Mainly clear"@, "🌤"@)
    } else if code == 2 {
        ("Partly cloudy"@, "⛅"@)
    } else if code == 3 {
        ("Overcast"@, "☁️"@)
    } else if code == 45 || code == 48 {
        ("Fog"@, "🌫"@)
    } else if 51 <= code <= 57 {
        ("Drizzle"@, "🌦"@)
    } else if 61 <= code <= 67 {
        ("Rain"@, "🌧"@)
    } else if 71 <= code <= 77 {
        ("Snow"@, "❄️"@)
    } else if 80 <= code <= 82 {
        ("Rain showers"@, "🌦"@)
    } else if 85 <= code <= 86 {
        ("Snow showers"@, "🌨"@)
    } else if code == 95 {
        ("Thunderstorm"@, "⛈"@)
    } else if code == 96 || code == 99 {
        ("Thunderstorm w/ hail"@, "⛈"@)
    } else {
        ("Unknown"@, "❓"@)
    }
}

pub fn weather_code_to_description(code: u32) -> (r: (&'static str, &'static str))
    ensures
        (r.0@, r.1@) == weather_spec(code),
{
    if code == 0 {
        ("Clear sky", "☀️")
    } else if code == 1 {
        ("Mainly clear", "🌤")
    } else if code == 2 {
        ("Partly cloudy", "⛅")
    } else if code == 3 {
        ("Overcast", "☁️")
    } else if code == 45 || code == 48 {
        ("Fog", "🌫")
    } else if 51 <= code && code <= 57 {
        ("Drizzle", "🌦")
    } else if 61 <= code && code <= 67 {
        ("Rain", "🌧")
    } else if 71 <= code && code <= 77 {
        ("Snow", "❄️")
    } else if 80 <= code && code <= 82 {
        ("Rain showers", "🌦")
    } else if 85 <= code && code <= 86 {
        ("Snow showers", "🌨")
    } else if code == 95 {
        ("Thunderstorm", "⛈")
    } else if code == 96 || code == 99 {
        ("Thunderstorm w/ hail", "⛈")
    } else {
        ("Unknown", "❓")
    }
}

// ─── Holidays ────────────────────────────────────────────────────────────────

/// A public holiday.
pub struct HolidayEntry {
    pub date: String,
    pub name: String,
    pub local_name: String,
}

/// The holiday service's address for a year and a country (in upper case).
pub fn holidays_url(year: i32, country: &str) -> (r: String)
    ensures
        r@ == "https://date.nager.at/api/v3/PublicHolidays/"@ + signed_decimal_spec(year as int) + "/"@
            + uppercase_of(country@),
{
    let y = signed_decimal(year as i64);
    let c = to_uppercase(country);
    let mut r = concat3("https://date.nager.at/api/v3/PublicHolidays/", y.as_str(), "/");
    r.append(c.as_str());
    r
}

/// A text field of a reply, empty when it is missing.
pub open spec fn or_empty(v: Option<String>) -> Seq<char> {
    match v {
        Some(s) => s@,
        None => Seq::empty(),
    }
}

fn text_or_empty(v: Option<String>) -> (r: String)
    ensures
        r@ == or_empty(v),
{
    match v {
        Some(s) => s,
        None => String::new(),
    }
}

/// A holiday from the service's fields (`date`, `name`, `localName`).
pub fn holiday_from_fields(date: Option<String>, name: Option<String>, local_name: Option<String>) -> (r: HolidayEntry)
    ensures
        r.date@ == or_empty(date),
        r.name@ == or_empty(name),
        r.local_name@ == or_empty(local_name),
{
    HolidayEntry { date: text_or_empty(date), name: text_or_empty(name), local_name: text_or_empty(local_name) }
}

// ─── URL scan ────────────────────────────────────────────────────────────────

/// The verdict on a URL.
pub struct UrlScanResult {
    pub url_checked: String,
    pub is_malicious: bool,
    pub threat_count: usize,
    pub message: String,
}

/// The verdict from the threat database's reply: malicious exactly when the
/// query status is `urlhaus_url_found`; the threat count is the number of
/// reports listed (none when no list came back).
pub fn url_scan_result(url: String, query_status: Option<String>, reports: Option<usize>) -> (r: UrlScanResult)
    ensures
        r.url_checked == url,
        r.is_malicious == (query_status matches Some(s) && s@ == "urlhaus_url_found"@),
        r.threat_count == match reports {
            Some(n) => n,
            None => 0,
        },
        r.message@ == if r.is_malicious {
            "⚠️ URL flagged as malicious by URLhaus ("@ + decimal_spec(r.threat_count as nat) + " report(s))"@
        } else {
            "✅ URL not found in URLhaus threat database"@
        },
{
    let is_malicious = match &query_status {
        Some(s) => str_eq(s.as_str(), "urlhaus_url_found"),
        None => false,
    };
    let threat_count = match reports {
        Some(n) => n,
        None => 0,
    };
    let message = if is_malicious {
        let n = decimal(threat_count as u128);
        concat3("⚠️ URL flagged as malicious by URLhaus (", n.as_str(), " report(s))")
    } else {
        lit("✅ URL not found in URLhaus threat database")
    };
    UrlScanResult { url_checked: url, is_malicious, threat_count, message }
}

// ─── Breach check ────────────────────────────────────────────────────────────

/// A breach an address appears in.
pub struct BreachInfo {
    pub name: String,
    pub domain: String,
    pub date: String,
    pub pwn_count: u64,
}

/// The breach report of an address.
pub struct BreachResult {
    pub email_checked: String,
    pub breach_count: usize,
    pub breaches: Vec<BreachInfo>,
    pub message: String,
}

/// The reputation service's address for an e-mail address.
pub fn breach_check_url(email: &str) -> (r: String)
    ensures
        r@ == "https://emailrep.io/"@ + email@,
{
    concat2("https://emailrep.io/", email)
}

/// The names shown of the listed breaches: the first five, `Unknown` for
/// entries that are not text.
pub open spec fn breach_names(listed: Seq<Option<String>>) -> Seq<Seq<char>> {
    let first = if listed.len() <= 5 {
        listed
    } else {
        listed.take(5)
    };
    Seq::new(
        first.len(),
        |i: int|
            match first[i] {
                Some(s) => s@,
                None => "Unknown"@,
            },
    )
}

/// The breach report from the service's reply: the breach count (none when
/// missing) and the first five listed breaches, by name only.
pub fn breach_result(email: String, breached_count: Option<u64>, listed: Vec<Option<String>>) -> (r: BreachResult)
    ensures
        r.email_checked == email,
        r.breach_count == match breached_count {
            Some(n) => n as usize,
            None => 0,
        },
        r.breaches@.len() == breach_names(listed@).len(),
        forall|i: int|
            0 <= i < r.breaches@.len() ==> {
                &&& (#[trigger] r.breaches@[i]).name@ == breach_names(listed@)[i]
                &&& r.breaches@[i].domain@.len() == 0
                &&& r.breaches@[i].date@.len() == 0
                &&& r.breaches@[i].pwn_count == 0
            },
        r.message@ == if r.breach_count > 0 {
            "⚠️ Email found in "@ + decimal_spec(r.breach_count as nat) + " data breach(es)"@
        } else {
            "✅ Email not found in any known breaches"@
        },
{
    let breach_count: usize = match breached_count {
        Some(n) => n as usize,
        None => 0,
    };
    let n = if listed.len() <= 5 {
        listed.len()
    } else {
        5
    };
    let mut breaches: Vec<BreachInfo> = Vec::new();
    let mut i: usize = 0;
    while i < n
        invariant
            i <= n,
            n <= listed@.len(),
            n == breach_names(listed@).len(),
            breaches@.len() == i,
            forall|j: int|
                0 <= j < i ==> {
                    &&& (#[trigger] breaches@[j]).name@ == breach_names(listed@)[j]
                    &&& breaches@[j].domain@.len() == 0
                    &&& breaches@[j].date@.len() == 0
                    &&& breaches@[j].pwn_count == 0
                },
        decreases n - i,
    {
        let name = match &listed[i] {
            Some(s) => s.clone(),
            None => lit("Unknown"),
        };
        breaches.push(BreachInfo { name, domain: String::new(), date: String::new(), pwn_count: 0 });
        i = i + 1;
    }
    let message = if breach_count > 0 {
        let c = decimal(breach_count as u128);
        concat3("⚠️ Email found in ", c.as_str(), " data breach(es)")
    } else {
        lit("✅ Email not found in any known breaches")
    };
    BreachResult { email_checked: email, breach_count, breaches, message }
}

// ─── Utilities ───────────────────────────────────────────────────────────────

/// The texts of a list joined with a separator.
pub open spec fn join_spec(items: Seq<Seq<char>>, sep: Seq<char>) -> Seq<char>
    decreases items.len(),
{
    if items.len() == 0 {
        Seq::empty()
    } else if items.len() == 1 {
        items[0]
    } else {
        join_spec(items.drop_last(), sep) + sep + items.last()
    }
}

/// `join` on a list of strings.
pub fn join(items: &Vec<String>, sep: &str) -> (r: String)
    ensures
        r@ == join_spec(strings_view(items@), sep@),
{
    let ghost v = strings_view(items@);
    let mut out = String::new();
    let mut i: usize = 0;
    assert(v.take(0) =~= Seq::<Seq<char>>::empty());
    while i < items.len()
        invariant
            i <= items@.len(),
            v == strings_view(items@),
            out@ == join_spec(v.take(i as int), sep@),
        decreases items@.len() - i,
    {
        assert(v.take(i + 1).drop_last() =~= v.take(i as int));
        assert(v.take(i + 1).last() == items@[i as int]@);
        if i > 0 {
            out.append(sep);
        } else {
            assert(v.take(1) =~= seq![items@[0]@]);
        }
        out.append(items[i].as_str());
        i = i + 1;
    }
    assert(v.take(v.len() as int) =~= v);
    out
}

/// The exchange-rate service's address for a base currency (in upper case)
/// and the wanted currencies, comma-separated as given.
pub fn exchange_rates_url(base: &str, symbols: &Vec<String>) -> (r: String)
    ensures
        r@ == "https://api.frankfurter.app/latest?from="@ + uppercase_of(base@) + "&to="@ + join_spec(
            strings_view(symbols@),
            ","@,
        ),
{
    let b = to_uppercase(base);
    let s = join(symbols, ",");
    let mut r = concat3("https://api.frankfurter.app/latest?from=", b.as_str(), "&to=");
    r.append(s.as_str());
    r
}

/// The address of the orchestration agent's endpoint `path`.
pub fn agent_url(port: u16, path: &str) -> (r: String)
    ensures
        r@ == "http://127.0.0.1:"@ + decimal_spec(port as nat) + path@,
{
    let p = decimal(port as u128);
    concat3("http://127.0.0.1:", p.as_str(), path)
}

/// The path listing the latest traces (fifteen unless a limit is given).
pub fn traces_path(limit: Option<u32>) -> (r: String)
    ensures
        r@ == "/traces?limit="@ + decimal_spec(
            match limit {
                Some(l) => l as nat,
                None => 15,
            },
        ),
{
    let l = match limit {
        Some(l) => l,
        None => 15,
    };
    let n = decimal(l as u128);
    concat2("/traces?limit=", n.as_str())
}

/// The path of one trace.
pub fn trace_path(trace_id: &str) -> (r: String)
    ensures
        r@ == "/trace/"@ + trace_id@,
{
    concat2("/trace/", trace_id)
}

// ─── Passwords ───────────────────────────────────────────────────────────────

/// A password's length: the requested one clamped to 8..=128.
pub open spec fn password_length_spec(length: usize) -> usize {
    if length < 8 {
        8
    } else if length > 128 {
        128
    } else {
        length
    }
}

pub fn password_length(length: usize) -> (r: usize)
    ensures
        r == password_length_spec(length),
{
    if length < 8 {
        8
    } else if length > 128 {
        128
    } else {
        length
    }
}

/// The characters a password is drawn from: lower-case letters, then upper
/// case, digits and symbols as asked.
pub open spec fn charset_spec(upper: bool, numbers: bool, symbols: bool) -> Seq<char> {
    "abcdefghijklmnopqrstuvwxyz"@ + (if upper {
        "ABCDEFGHIJKLMNOPQRSTUVWXYZ"@
    } else {
        Seq::empty()
    }) + (if numbers {
        "0123456789"@
    } else {
        Seq::empty()
    }) + (if symbols {
        "!@#$%^&*()-_=+[]{}|;:,.<>?"@
    } else {
        Seq::empty()
    })
}

pub fn password_charset(upper: bool, numbers: bool, symbols: bool) -> (r: Vec<char>)
    ensures
        r@ == charset_spec(upper, numbers, symbols),
        r@.len() >= 26,
{
    let mut s = lit("abcdefghijklmnopqrstuvwxyz");
    if upper {
        s.append("ABCDEFGHIJKLMNOPQRSTUVWXYZ");
    }
    if numbers {
        s.append("0123456789");
    }
    if symbols {
        s.append("!@#$%^&*()-_=+[]{}|;:,.<>?");
    }
    let v = chars_of(s.as_str());
    proof {
        reveal_strlit("abcdefghijklmnopqrstuvwxyz");
        assert(v@ =~= charset_spec(upper, numbers, symbols));
    }
    v
}

#[verifier::external_type_specification]
#[verifier::external_body]
pub struct ExThreadRng(rand::rngs::ThreadRng);

/// Calls `rand::thread_rng`: the thread's random generator.
#[verifier::external_body]
fn new_rng() -> rand::rngs::ThreadRng {
    rand::thread_rng()
}

/// Calls `Rng::gen_range(0..n)`. Trusted: the result lies in `0..n` (the
/// crate panics on an empty range, which `requires` rules out); which index
/// comes is chance.
#[verifier::external_body]
fn random_index(rng: &mut rand::rngs::ThreadRng, n: usize) -> (r: usize)
    requires
        n > 0,
    ensures
        r < n,
{
    rng.gen_range(0..n)
}

/// A random password: `password_length(length)` characters, each drawn from
/// the asked character set.
pub fn generate_password(length: usize, upper: bool, numbers: bool, symbols: bool) -> (r: String)
    ensures
        r@.len() == password_length_spec(length),
        forall|i: int| 0 <= i < r@.len() ==> charset_spec(upper, numbers, symbols).contains(#[trigger] r@[i]),
{
    let n = password_length(length);
    let cs = password_charset(upper, numbers, symbols);
    let mut rng = new_rng();
    let mut out: Vec<char> = Vec::new();
    let mut i: usize = 0;
    while i < n
        invariant
            i <= n,
            cs@ == charset_spec(upper, numbers, symbols),
            cs@.len() >= 26,
            out@.len() == i,
            forall|j: int| 0 <= j < i ==> cs@.contains(#[trigger] out@[j]),
        decreases n - i,
    {
        let k = random_index(&mut rng, cs.len());
        let c = cs[k];
        assert(cs@[k as int] == c);
        out.push(c);
        i = i + 1;
    }
    string_from_chars(out.as_slice())
}

// ─── Network trace ───────────────────────────────────────────────────────────

/// What the network trace says of the connection.
pub struct NetworkInfo {
    pub ip: String,
    pub country: String,
    pub tls_version: String,
    pub http_protocol: String,
    pub asn: String,
}

impl NetworkInfo {
    pub open spec fn shown(self) -> (Seq<char>, Seq<char>, Seq<char>, Seq<char>, Seq<char>) {
        (self.ip@, self.country@, self.tls_version@, self.http_protocol@, self.asn@)
    }
}

pub type TraceView = (Seq<char>, Seq<char>, Seq<char>, Seq<char>, Seq<char>);

/// `i` is the first position of `c` in `s`.
pub open spec fn first_at(s: Seq<char>, c: char, i: int) -> bool {
    0 <= i < s.len() && s[i] == c && forall|j: int| 0 <= j < i ==> s[j] != c
}

/// `str::split_once` with a character: the parts before and after its first
/// occurrence.
pub open spec fn split_once_spec(s: Seq<char>, c: char) -> Option<(Seq<char>, Seq<char>)> {
    if exists|i: int| first_at(s, c, i) {
        let i = choose|i: int| first_at(s, c, i);
        Some((s.take(i), s.skip(i + 1)))
    } else {
        None
    }
}

/// One `key=value` line of the trace: `ip`, `loc`, `tls`, `http` and `asn`
/// set the address, country, TLS version, HTTP protocol and network; key and
/// value are trimmed; other lines change nothing.
pub open spec fn apply_trace_line(info: TraceView, line: Seq<char>) -> TraceView {
    match split_once_spec(line, '=') {
        Some((k, v)) => {
            let key = trim_spec(k);
            let val = trim_spec(v);
            if key == "ip"@ {
                (val, info.1, info.2, info.3, info.4)
            } else if key == "loc"@ {
                (info.0, val, info.2, info.3, info.4)
            } else if key == "tls"@ {
                (info.0, info.1, val, info.3, info.4)
            } else if key == "http"@ {
                (info.0, info.1, info.2, val, info.4)
            } else if key == "asn"@ {
                (info.0, info.1, info.2, info.3, val)
            } else {
                info
            }
        },
        None => info,
    }
}

/// The trace read up to its last newline, and the line after it.
pub open spec fn trace_fold(s: Seq<char>) -> (TraceView, Seq<char>)
    decreases s.len(),
{
    if s.len() == 0 {
        ((Seq::empty(), Seq::empty(), Seq::empty(), Seq::empty(), Seq::empty()), Seq::empty())
    } else {
        let (info, cur) = trace_fold(s.drop_last());
        if s.last() == '\n' {
            (apply_trace_line(info, cur), Seq::empty())
        } else {
            (info, cur.push(s.last()))
        }
    }
}

/// What a whole trace says: its lines applied in order (a later line wins).
pub open spec fn network_info_spec(body: Seq<char>) -> TraceView {
    let (info, cur) = trace_fold(body);
    apply_trace_line(info, cur)
}

fn find_char(v: &Vec<char>, c: char) -> (r: Option<usize>)
    ensures
        r matches Some(i) ==> first_at(v@, c, i as int),
        r is None ==> forall|j: int| 0 <= j < v@.len() ==> v@[j] != c,
{
    let mut i: usize = 0;
    while i < v.len()
        invariant
            i <= v@.len(),
            forall|j: int| 0 <= j < i ==> v@[j] != c,
        decreases v@.len() - i,
    {
        if v[i] == c {
            return Some(i);
        }
        i = i + 1;
    }
    None
}

fn apply_line_exec(info: &mut NetworkInfo, line: &Vec<char>)
    ensures
        final(info).shown() == apply_trace_line(old(info).shown(), line@),
{
    match find_char(line, '=') {
        Some(i) => {
            proof {
                assert(exists|k: int| first_at(line@, '=', k));
                let k = choose|k: int| first_at(line@, '=', k);
                if k < i {
                    assert(line@[k] != '=');
                } else if k > i {
                    assert(line@[i as int] != '=');
                }
                assert(k == i);
            }
            let len = line.len();
            assert(i < len);
            let k = slice_vec(line, 0, i);
            let v = slice_vec(line, i + 1, len);
            assert(k@ =~= line@.take(i as int));
            assert(v@ =~= line@.skip(i + 1));
            let kt = trim_chars(&k);
            let key = string_from_chars(kt.as_slice());
            let vt = trim_chars(&v);
            let val = string_from_chars(vt.as_slice());
            if str_eq(key.as_str(), "ip") {
                info.ip = val;
            } else if str_eq(key.as_str(), "loc") {
                info.country = val;
            } else if str_eq(key.as_str(), "tls") {
                info.tls_version = val;
            } else if str_eq(key.as_str(), "http") {
                info.http_protocol = val;
            } else if str_eq(key.as_str(), "asn") {
                info.asn = val;
            }
        },
        None => {
            proof {
                if exists|k: int| first_at(line@, '=', k) {
                    let k = choose|k: int| first_at(line@, '=', k);
                    assert(line@[k] == '=');
                }
            }
        },
    }
}

/// Reads the network trace (`key=value` lines).
pub fn parse_network_trace(body: &str) -> (r: NetworkInfo)
    ensures
        r.shown() == network_info_spec(body@),
{
    let v = chars_of(body);
    let mut info = NetworkInfo {
        ip: String::new(),
        country: String::new(),
        tls_version: String::new(),
        http_protocol: String::new(),
        asn: String::new(),
    };
    let mut cur: Vec<char> = Vec::new();
    let mut i: usize = 0;
    assert(v@.take(0) =~= Seq::<char>::empty());
    while i < v.len()
        invariant
            i <= v@.len(),
            (info.shown(), cur@) == trace_fold(v@.take(i as int)),
        decreases v@.len() - i,
    {
        assert(v@.take(i + 1).drop_last() =~= v@.take(i as int));
        assert(v@.take(i + 1).last() == v@[i as int]);
        let c = v[i];
        if c == '\n' {
            apply_line_exec(&mut info, &cur);
            cur = Vec::new();
        } else {
            cur.push(c);
        }
        i = i + 1;
    }
    assert(v@.take(v@.len() as int) =~= v@);
    apply_line_exec(&mut info, &cur);
    info
}

// ─── Dictionary ──────────────────────────────────────────────────────────────

/// A definition of a word.
pub struct DefinitionEntry {
    pub part_of_speech: String,
    pub definition: String,
    pub example: Option<String>,
}

/// A dictionary entry.
pub struct DictionaryResult {
    pub word: String,
    pub phonetic: String,
    pub definitions: Vec<DefinitionEntry>,
}

/// A definition as the dictionary service sent it.
pub struct DefinitionFields {
    pub definition: Option<String>,
    pub example: Option<String>,
}

/// A meaning as the dictionary service sent it (`definitions` present only
/// when it is a list).
pub struct MeaningFields {
    pub part_of_speech: Option<String>,
    pub definitions: Option<Vec<DefinitionFields>>,
}

/// The first entry the dictionary service sent.
pub struct EntryFields {
    pub word: Option<String>,
    pub phonetic: Option<String>,
    pub meanings: Option<Vec<MeaningFields>>,
}

pub type DefinitionView = (Seq<char>, Seq<char>, Option<Seq<char>>);

/// The shown definitions of one meaning: its first two.
pub open spec fn meaning_definitions(m: MeaningFields) -> Seq<DefinitionView> {
    match m.definitions {
        Some(ds) => {
            let first = if ds@.len() <= 2 {
                ds@
            } else {
                ds@.take(2)
            };
            Seq::new(
                first.len(),
                |i: int| (or_empty(m.part_of_speech), or_empty(first[i].definition), opt_view(first[i].example)),
            )
        },
        None => Seq::empty(),
    }
}

/// The definitions of a list of meanings, in order.
pub open spec fn definitions_of(ms: Seq<MeaningFields>) -> Seq<DefinitionView>
    decreases ms.len(),
{
    if ms.len() == 0 {
        Seq::empty()
    } else {
        definitions_of(ms.drop_last()) + meaning_definitions(ms.last())
    }
}

/// The shown definitions of an entry: those of its first three meanings.
pub open spec fn entry_definitions(e: EntryFields) -> Seq<DefinitionView> {
    match e.meanings {
        Some(ms) => definitions_of(
            if ms@.len() <= 3 {
                ms@
            } else {
                ms@.take(3)
            },
        ),
        None => Seq::empty(),
    }
}

pub open spec fn definition_view(d: DefinitionEntry) -> DefinitionView {
    (d.part_of_speech@, d.definition@, opt_view(d.example))
}

/// The dictionary service's address for a word (trimmed).
pub fn dictionary_url(word: &str) -> (r: String)
    ensures
        r@ == "https://api.dictionaryapi.dev/api/v2/entries/en/"@ + trim_spec(word@),
{
    let w = trim(word);
    concat2("https://api.dictionaryapi.dev/api/v2/entries/en/", w.as_str())
}

fn push_meaning(out: &mut Vec<DefinitionEntry>, m: &MeaningFields)
    ensures
        Seq::new(final(out)@.len(), |i: int| definition_view(final(out)@[i])) == Seq::new(
            old(out)@.len(),
            |i: int| definition_view(old(out)@[i]),
        ) + meaning_definitions(*m),
{
    let ghost start = Seq::new(out@.len(), |i: int| definition_view(out@[i]));
    match &m.definitions {
        Some(ds) => {
            let n = if ds.len() <= 2 {
                ds.len()
            } else {
                2
            };
            let ghost first = if ds@.len() <= 2 {
                ds@
            } else {
                ds@.take(2)
            };
            let ghost md = meaning_definitions(*m);
            assert(md.len() == n);
            assert(forall|q: int| 0 <= q < n ==> #[trigger] md[q] == (or_empty(m.part_of_speech), or_empty(first[q].definition), opt_view(first[q].example)));
            assert(md.take(0) =~= Seq::<DefinitionView>::empty());
            assert(start + md.take(0) =~= start);
            let mut k: usize = 0;
            while k < n
                invariant
                    k <= n,
                    n <= ds@.len(),
                    n == first.len(),
                    md == meaning_definitions(*m),
                    md.len() == n,
                    forall|q: int| 0 <= q < n ==> #[trigger] md[q] == (or_empty(m.part_of_speech), or_empty(first[q].definition), opt_view(first[q].example)),
                    m.definitions == Some(*ds),
                    forall|q: int| 0 <= q < n ==> first[q] == ds@[q],
                    Seq::new(out@.len(), |i: int| definition_view(out@[i])) == start + md.take(k as int),
                decreases n - k,
            {
                let d = &ds[k];
                let pos = match &m.part_of_speech {
                    Some(p) => p.clone(),
                    None => String::new(),
                };
                let def = match &d.definition {
                    Some(x) => x.clone(),
                    None => String::new(),
                };
                let e = DefinitionEntry { part_of_speech: pos, definition: def, example: clone_opt(&d.example) };
                let ghost before = out@;
                out.push(e);
                assert(md[k as int] == definition_view(e));
                assert(Seq::new(out@.len(), |i: int| definition_view(out@[i])) =~= Seq::new(
                    before.len(),
                    |i: int| definition_view(before[i]),
                ).push(definition_view(e)));
                assert(md.take(k + 1) =~= md.take(k as int).push(md[k as int]));
                k = k + 1;
            }
            assert(md.take(n as int) =~= md);
        },
        None => {
            assert(meaning_definitions(*m) =~= Seq::<DefinitionView>::empty());
            assert(start + meaning_definitions(*m) =~= start);
        },
    }
}

/// The dictionary entry shown for a looked-up word: refused with `Word not
/// found` when the service sent no entry; else its word (the asked one when
/// missing), phonetic (empty when missing) and the first two definitions of
/// each of its first three meanings.
pub fn dictionary_result(asked: &str, first: Option<EntryFields>) -> (r: Result<DictionaryResult, String>)
    ensures
        first is None <==> r is Err,
        r matches Err(e) ==> e@ == "Word not found"@,
        r matches Ok(d) ==> ({
            let e = first->0;
            &&& d.word@ == match e.word {
                Some(w) => w@,
                None => asked@,
            }
            &&& d.phonetic@ == or_empty(e.phonetic)
            &&& Seq::new(d.definitions@.len(), |i: int| definition_view(d.definitions@[i])) == entry_definitions(e)
        }),
{
    let e = match first {
        Some(e) => e,
        None => {
            return Err(lit("Word not found"));
        },
    };
    let mut definitions: Vec<DefinitionEntry> = Vec::new();
    match &e.meanings {
        Some(ms) => {
            let n = if ms.len() <= 3 {
                ms.len()
            } else {
                3
            };
            let ghost first3 = if ms@.len() <= 3 {
                ms@
            } else {
                ms@.take(3)
            };
            let mut j: usize = 0;
            assert(first3.take(0) =~= Seq::<MeaningFields>::empty());
            assert(Seq::new(definitions@.len(), |i: int| definition_view(definitions@[i])) =~= Seq::<DefinitionView>::empty());
            while j < n
                invariant
                    j <= n,
                    n <= ms@.len(),
                    n == first3.len(),
                    forall|q: int| 0 <= q < n ==> first3[q] == ms@[q],
                    Seq::new(definitions@.len(), |i: int| definition_view(definitions@[i])) == definitions_of(
                        first3.take(j as int),
                    ),
                decreases n - j,
            {
                assert(first3.take(j + 1).drop_last() =~= first3.take(j as int));
                assert(first3.take(j + 1).last() == ms@[j as int]);
                push_meaning(&mut definitions, &ms[j]);
                j = j + 1;
            }
            assert(first3.take(n as int) =~= first3);
        },
        None => {
            assert(Seq::new(definitions@.len(), |i: int| definition_view(definitions@[i])) =~= Seq::<DefinitionView>::empty());
        },
    }
    let word = match &e.word {
        Some(w) => w.clone(),
        None => lit(asked),
    };
    let phonetic = match &e.phonetic {
        Some(p) => p.clone(),
        None => String::new(),
    };
    Ok(DictionaryResult { word, phonetic, definitions })
}

// ─── Markdown ────────────────────────────────────────────────────────────────

/// What `pulldown_cmark::html::push_html` writes for a text parsed with
/// tables, strikethrough and task lists enabled.
pub uninterp spec fn markdown_html_of(input: Seq<char>) -> Seq<char>;

/// Calls `pulldown_cmark::Parser::new_ext` (tables, strikethrough, task
/// lists) and `pulldown_cmark::html::push_html`. Trusted: the result is the
/// named HTML of the text.
#[verifier::external_body]
fn markdown_to_html(input: &str) -> (r: String)
    ensures
        r@ == markdown_html_of(input@),
{
    let mut options = pulldown_cmark::Options::empty();
    options.insert(pulldown_cmark::Options::ENABLE_TABLES);
    options.insert(pulldown_cmark::Options::ENABLE_STRIKETHROUGH);
    options.insert(pulldown_cmark::Options::ENABLE_TASKLISTS);
    let parser = pulldown_cmark::Parser::new_ext(input, options);
    let mut out = String::new();
    pulldown_cmark::html::push_html(&mut out, parser);
    out
}

/// The letters of `script`, each in either case, start at `i` in `t`.
pub open spec fn script_word_at(t: Seq<char>, i: int) -> bool {
    &&& 0 <= i
    &&& i + 6 <= t.len()
    &&& (t[i] == 's' || t[i] == 'S')
    &&& (t[i + 1] == 'c' || t[i + 1] == 'C')
    &&& (t[i + 2] == 'r' || t[i + 2] == 'R')
    &&& (t[i + 3] == 'i' || t[i + 3] == 'I')
    &&& (t[i + 4] == 'p' || t[i + 4] == 'P')
    &&& (t[i + 5] == 't' || t[i + 5] == 'T')
}

/// A script tag starts at `j` in `t`: `<script` or `</script`, in any
/// letter case.
pub open spec fn script_tag_at(t: Seq<char>, j: int) -> bool {
    &&& 0 <= j < t.len()
    &&& t[j] == '<'
    &&& (script_word_at(t, j + 1) || (j + 1 < t.len() && t[j + 1] == '/' && script_word_at(
        t,
        j + 2,
    )))
}

/// No script tag starts anywhere in `t`, in any letter case.
pub open spec fn no_script_tag(t: Seq<char>) -> bool {
    forall|j: int| !#[trigger] script_tag_at(t, j)
}

/// `s` with the `<` of every script tag, in any letter case, written `&lt;`.
pub open spec fn escaped_script_tags(s: Seq<char>) -> Seq<char>
    decreases s.len(),
{
    if s.len() == 0 {
        s
    } else if script_tag_at(s, 0) {
        seq!['&', 'l', 't', ';'] + escaped_script_tags(s.skip(1))
    } else {
        seq![s[0]] + escaped_script_tags(s.skip(1))
    }
}

/// Where the first `k` characters of the escaped text hold no `&`, they are
/// the first `k` characters of the text itself.
proof fn lemma_escaped_prefix(r: Seq<char>, k: nat)
    requires
        k <= escaped_script_tags(r).len(),
        forall|i: int| 0 <= i < k ==> escaped_script_tags(r)[i] != '&',
    ensures
        k <= r.len(),
        forall|i: int| 0 <= i < k ==> r[i] == escaped_script_tags(r)[i],
    decreases k,
{
    if k > 0 {
        let e = escaped_script_tags(r);
        let tail = escaped_script_tags(r.skip(1));
        assert(r.len() > 0);
        if script_tag_at(r, 0) {
            assert(e[0] == '&');
        }
        assert(e == seq![r[0]] + tail);
        assert forall|i: int| 0 <= i < k - 1 implies tail[i] != '&' by {
            assert(e[i + 1] == tail[i]);
        }
        lemma_escaped_prefix(r.skip(1), (k - 1) as nat);
        assert forall|i: int| 0 <= i < k implies r[i] == e[i] by {
            if i > 0 {
                assert(r.skip(1)[i - 1] == tail[i - 1]);
                assert(e[i] == tail[i - 1]);
            }
        }
    }
}

/// No script tag is left in the escaped text, in any letter case.
pub proof fn lemma_no_script_tag_after_escape(s: Seq<char>)
    ensures
        no_script_tag(escaped_script_tags(s)),
    decreases s.len(),
{
    if s.len() > 0 {
        let t = escaped_script_tags(s);
        let tail = escaped_script_tags(s.skip(1));
        lemma_no_script_tag_after_escape(s.skip(1));
        assert forall|j: int| !#[trigger] script_tag_at(t, j) by {
            if script_tag_at(t, j) {
                if script_tag_at(s, 0) {
                    let head = seq!['&', 'l', 't', ';'];
                    assert(t == head + tail);
                    if j < 4 {
                        assert(t[j] == head[j]);
                    } else {
                        assert(t[j] == tail[j - 4]);
                        assert(script_tag_at(tail, j - 4)) by {
                            assert forall|x: int| 4 <= x < t.len() implies t[x] == tail[x - 4] by {}
                        }
                    }
                } else {
                    assert(t == seq![s[0]] + tail);
                    if j == 0 {
                        assert(forall|x: int| 1 <= x < t.len() ==> t[x] == tail[x - 1]);
                        if script_word_at(t, 1) {
                            assert forall|i: int| 0 <= i < 6 implies tail[i] != '&' by {
                                assert(t[i + 1] == tail[i]);
                            }
                            lemma_escaped_prefix(s.skip(1), 6);
                            assert forall|i: int| 1 <= i < 7 implies s[i] == t[i] by {
                                assert(s.skip(1)[i - 1] == s[i]);
                                assert(t[i] == tail[i - 1]);
                            }
                            assert(script_word_at(s, 1));
                        } else {
                            assert forall|i: int| 0 <= i < 7 implies tail[i] != '&' by {
                                assert(t[i + 1] == tail[i]);
                            }
                            lemma_escaped_prefix(s.skip(1), 7);
                            assert forall|i: int| 1 <= i < 8 implies s[i] == t[i] by {
                                assert(s.skip(1)[i - 1] == s[i]);
                                assert(t[i] == tail[i - 1]);
                            }
                            assert(s[1] == '/' && script_word_at(s, 2));
                        }
                    } else {
                        assert(script_tag_at(tail, j - 1)) by {
                            assert forall|x: int| 1 <= x < t.len() implies t[x] == tail[x - 1] by {}
                        }
                    }
                }
            }
        }
    }
}

fn script_word_starts(v: &Vec<char>, i: usize) -> (r: bool)
    ensures
        r == script_word_at(v@, i as int),
{
    if i > v.len() || v.len() - i < 6 {
        return false;
    }
    (v[i] == 's' || v[i] == 'S') && (v[i + 1] == 'c' || v[i + 1] == 'C') && (v[i + 2] == 'r'
        || v[i + 2] == 'R') && (v[i + 3] == 'i' || v[i + 3] == 'I') && (v[i + 4] == 'p' || v[i
        + 4] == 'P') && (v[i + 5] == 't' || v[i + 5] == 'T')
}

/// Writes the `<` of every script tag, in any letter case, as `&lt;`.
fn escape_script_tags(html: &str) -> (r: String)
    ensures
        r@ == escaped_script_tags(html@),
        no_script_tag(r@),
{
    let v = chars_of(html);
    let mut out: Vec<char> = Vec::new();
    let mut i: usize = 0;
    assert(v@.skip(0) =~= v@);
    while i < v.len()
        invariant
            i <= v@.len(),
            escaped_script_tags(v@) == out@ + escaped_script_tags(v@.skip(i as int)),
        decreases v@.len() - i,
    {
        let ghost rest = v@.skip(i as int);
        let ghost out0 = out@;
        let open = v[i] == '<' && (script_word_starts(&v, i + 1) || (i + 1 < v.len() && v[i + 1]
            == '/' && script_word_starts(&v, i + 2)));
        proof {
            assert(forall|x: int| 0 <= x < rest.len() ==> rest[x] == v@[i + x]);
            assert(open == script_tag_at(rest, 0));
            assert(rest.skip(1) =~= v@.skip(i + 1));
        }
        if open {
            out.push('&');
            out.push('l');
            out.push('t');
            out.push(';');
            assert(out@ =~= out0 + seq!['&', 'l', 't', ';']);
        } else {
            out.push(v[i]);
            assert(out@ =~= out0 + seq![rest[0]]);
        }
        assert(out@ + escaped_script_tags(v@.skip(i + 1)) =~= out0 + escaped_script_tags(rest));
        i = i + 1;
    }
    assert(out@ + escaped_script_tags(v@.skip(i as int)) =~= out@);
    proof {
        lemma_no_script_tag_after_escape(html@);
    }
    string_from_chars(out.as_slice())
}

/// The HTML with script openings and closings escaped and `javascript:` and
/// the `onerror=`, `onload=`, `onclick=` and `onmouseover=` handlers removed,
/// in that order; then the `<` of every script tag that is left, in any
/// letter case, written `&lt;`.
pub open spec fn sanitize_spec(html: Seq<char>) -> Seq<char> {
    let a = replace_spec(html, "<script"@, "&lt;script"@);
    let b = replace_spec(a, "</script>"@, "&lt;/script&gt;"@);
    let c = replace_spec(b, "javascript:"@, ""@);
    let d = replace_spec(c, "onerror="@, ""@);
    let e = replace_spec(d, "onload="@, ""@);
    let f = replace_spec(e, "onclick="@, ""@);
    escaped_script_tags(replace_spec(f, "onmouseover="@, ""@))
}

/// Sanitises HTML; what comes out holds no script tag in any letter case.
pub fn sanitize_html(html: &str) -> (r: String)
    ensures
        r@ == sanitize_spec(html@),
        no_script_tag(r@),
{
    proof {
        reveal_strlit("<script");
        reveal_strlit("</script>");
        reveal_strlit("javascript:");
        reveal_strlit("onerror=");
        reveal_strlit("onload=");
        reveal_strlit("onclick=");
        reveal_strlit("onmouseover=");
    }
    let a = replace(html, "<script", "&lt;script");
    let b = replace(a.as_str(), "</script>", "&lt;/script&gt;");
    let c = replace(b.as_str(), "javascript:", "");
    let d = replace(c.as_str(), "onerror=", "");
    let e = replace(d.as_str(), "onload=", "");
    let f = replace(e.as_str(), "onclick=", "");
    let g = replace(f.as_str(), "onmouseover=", "");
    escape_script_tags(g.as_str())
}

/// Markdown rendered to HTML, then sanitised: the output holds no script tag
/// in any letter case.
pub fn render_markdown(input: &str) -> (r: String)
    ensures
        r@ == sanitize_spec(markdown_html_of(input@)),
        no_script_tag(r@),
{
    let html = markdown_to_html(input);
    sanitize_html(html.as_str())
}

} // verus!
