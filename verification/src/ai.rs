//! AI providers: provider settings, the active endpoint, session bookkeeping
//! of streamed tokens, and the framing of server-sent events.
use vstd::prelude::*;
use crate::text::{
    chars_of, concat2, concat3, decimal, decimal_spec, lit, lowercase_of, str_eq,
    string_from_chars, to_lowercase, trim, trim_chars, trim_end_char, trim_end_char_spec,
    trim_spec, is_blank, is_blank_spec, starts_with, starts_with_spec, slice_vec,
    signed_decimal, signed_decimal_spec,
};

verus! {

broadcast use vstd::string::group_string_axioms;

// ─── Types ───────────────────────────────────────────────────────────────────

/// The stored provider configuration.
pub struct AiProviderSettings {
    pub active_provider: String,
    pub poe_base_url: String,
    pub poe_api_key_env: String,
    pub poe_model: String,
    pub alibaba_base_url: String,
    pub alibaba_api_key_env: String,
    pub alibaba_model: String,
    pub updated_at: i64,
}

/// A partial update of the provider configuration.
pub struct AiProviderSettingsInput {
    pub active_provider: Option<String>,
    pub poe_base_url: Option<String>,
    pub poe_api_key_env: Option<String>,
    pub poe_model: Option<String>,
    pub alibaba_base_url: Option<String>,
    pub alibaba_api_key_env: Option<String>,
    pub alibaba_model: Option<String>,
}

/// The configuration with what the environment says of its keys.
pub struct AiProviderStatus {
    pub settings: AiProviderSettings,
    pub poe_api_key_present: bool,
    pub alibaba_api_key_present: bool,
    pub active_provider_label: String,
    pub active_model: String,
}

impl AiProviderSettings {
    /// A field-by-field copy.
    pub fn duplicate(&self) -> (r: AiProviderSettings)
        ensures
            r == *self,
    {
        AiProviderSettings {
            active_provider: self.active_provider.clone(),
            poe_base_url: self.poe_base_url.clone(),
            poe_api_key_env: self.poe_api_key_env.clone(),
            poe_model: self.poe_model.clone(),
            alibaba_base_url: self.alibaba_base_url.clone(),
            alibaba_api_key_env: self.alibaba_api_key_env.clone(),
            alibaba_model: self.alibaba_model.clone(),
            updated_at: self.updated_at,
        }
    }

    /// The text fields, in declaration order.
    pub open spec fn text_view(&self) -> Seq<Seq<char>> {
        seq![
            self.active_provider@,
            self.poe_base_url@,
            self.poe_api_key_env@,
            self.poe_model@,
            self.alibaba_base_url@,
            self.alibaba_api_key_env@,
            self.alibaba_model@,
        ]
    }
}

// ─── Defaults and updates ────────────────────────────────────────────────────

/// The configuration used before one is saved: Poe with `GPT-4o`, keys in
/// `POE_API_KEY` and `ALIBABA_API_KEY`.
pub fn default_provider_settings() -> (r: AiProviderSettings)
    ensures
        r.active_provider@ == "poe"@,
        r.poe_base_url@ == "https://api.poe.com/v1"@,
        r.poe_api_key_env@ == "POE_API_KEY"@,
        r.poe_model@ == "GPT-4o"@,
        r.alibaba_base_url@ == "https://dashscope-intl.aliyuncs.com/compatible-mode/v1"@,
        r.alibaba_api_key_env@ == "ALIBABA_API_KEY"@,
        r.alibaba_model@ == "qwen-plus"@,
        r.updated_at == 0,
{
    AiProviderSettings {
        active_provider: lit("poe"),
        poe_base_url: lit("https://api.poe.com/v1"),
        poe_api_key_env: lit("POE_API_KEY"),
        poe_model: lit("GPT-4o"),
        alibaba_base_url: lit("https://dashscope-intl.aliyuncs.com/compatible-mode/v1"),
        alibaba_api_key_env: lit("ALIBABA_API_KEY"),
        alibaba_model: lit("qwen-plus"),
        updated_at: 0,
    }
}

/// A text field after an update: the new value trimmed, unless it is absent
/// or blank, in which case the current value stays.
pub open spec fn updated_text(new: Option<String>, current: Seq<char>) -> Seq<char> {
    match new {
        Some(v) => if trim_spec(v@).len() > 0 {
            trim_spec(v@)
        } else {
            current
        },
        None => current,
    }
}

/// The active provider after an update: the new value trimmed and in lower
/// case when that is `poe` or `alibaba`; otherwise the current one.
pub open spec fn updated_provider(new: Option<String>, current: Seq<char>) -> Seq<char> {
    match new {
        Some(v) => {
            let l = lowercase_of(trim_spec(v@));
            if l == "poe"@ || l == "alibaba"@ {
                l
            } else {
                current
            }
        },
        None => current,
    }
}

fn update_text(new: &Option<String>, current: &String) -> (r: String)
    ensures
        r@ == updated_text(*new, current@),
{
    match new {
        Some(v) => {
            let t = trim(v.as_str());
            if !t.as_str().is_empty() {
                t
            } else {
                current.clone()
            }
        },
        None => current.clone(),
    }
}

fn update_provider(new: &Option<String>, current: &String) -> (r: String)
    ensures
        r@ == updated_provider(*new, current@),
{
    match new {
        Some(v) => {
            let t = trim(v.as_str());
            let l = to_lowercase(t.as_str());
            if str_eq(l.as_str(), "poe") || str_eq(l.as_str(), "alibaba") {
                l
            } else {
                current.clone()
            }
        },
        None => current.clone(),
    }
}

/// The configuration after applying `input` to `current` at time `now`.
pub open spec fn merged_settings_view(current: AiProviderSettings, input: AiProviderSettingsInput) -> Seq<Seq<char>> {
    seq![
        updated_provider(input.active_provider, current.active_provider@),
        updated_text(input.poe_base_url, current.poe_base_url@),
        updated_text(input.poe_api_key_env, current.poe_api_key_env@),
        updated_text(input.poe_model, current.poe_model@),
        updated_text(input.alibaba_base_url, current.alibaba_base_url@),
        updated_text(input.alibaba_api_key_env, current.alibaba_api_key_env@),
        updated_text(input.alibaba_model, current.alibaba_model@),
    ]
}

/// Applies a settings update: each field given with a non-blank value takes
/// that value trimmed; the provider is taken only when it names `poe` or
/// `alibaba` (any case); the update time is `now`.
pub fn merge_ai_provider_settings(current: &AiProviderSettings, input: &AiProviderSettingsInput, now: i64) -> (r: AiProviderSettings)
    ensures
        r.text_view() == merged_settings_view(*current, *input),
        r.updated_at == now,
        input.active_provider is Some && (lowercase_of(trim_spec(input.active_provider->0@)) == "poe"@
            || lowercase_of(trim_spec(input.active_provider->0@)) == "alibaba"@) ==> r.active_provider@
            == lowercase_of(trim_spec(input.active_provider->0@)),
        !(input.active_provider is Some && (lowercase_of(trim_spec(input.active_provider->0@)) == "poe"@
            || lowercase_of(trim_spec(input.active_provider->0@)) == "alibaba"@)) ==> r.active_provider@
            == current.active_provider@,
        input.poe_base_url is Some && trim_spec(input.poe_base_url->0@).len() > 0 ==> r.poe_base_url@ == trim_spec(
            input.poe_base_url->0@,
        ),
        !(input.poe_base_url is Some && trim_spec(input.poe_base_url->0@).len() > 0) ==> r.poe_base_url@ == current.poe_base_url@,
        input.poe_api_key_env is Some && trim_spec(input.poe_api_key_env->0@).len() > 0 ==> r.poe_api_key_env@ == trim_spec(
            input.poe_api_key_env->0@,
        ),
        !(input.poe_api_key_env is Some && trim_spec(input.poe_api_key_env->0@).len() > 0) ==> r.poe_api_key_env@ == current.poe_api_key_env@,
        input.poe_model is Some && trim_spec(input.poe_model->0@).len() > 0 ==> r.poe_model@ == trim_spec(
            input.poe_model->0@,
        ),
        !(input.poe_model is Some && trim_spec(input.poe_model->0@).len() > 0) ==> r.poe_model@ == current.poe_model@,
        input.alibaba_base_url is Some && trim_spec(input.alibaba_base_url->0@).len() > 0 ==> r.alibaba_base_url@ == trim_spec(
            input.alibaba_base_url->0@,
        ),
        !(input.alibaba_base_url is Some && trim_spec(input.alibaba_base_url->0@).len() > 0) ==> r.alibaba_base_url@ == current.alibaba_base_url@,
        input.alibaba_api_key_env is Some && trim_spec(input.alibaba_api_key_env->0@).len() > 0 ==> r.alibaba_api_key_env@ == trim_spec(
            input.alibaba_api_key_env->0@,
        ),
        !(input.alibaba_api_key_env is Some && trim_spec(input.alibaba_api_key_env->0@).len() > 0) ==> r.alibaba_api_key_env@ == current.alibaba_api_key_env@,
        input.alibaba_model is Some && trim_spec(input.alibaba_model->0@).len() > 0 ==> r.alibaba_model@ == trim_spec(
            input.alibaba_model->0@,
        ),
        !(input.alibaba_model is Some && trim_spec(input.alibaba_model->0@).len() > 0) ==> r.alibaba_model@ == current.alibaba_model@,
{
    AiProviderSettings {
        active_provider: update_provider(&input.active_provider, &current.active_provider),
        poe_base_url: update_text(&input.poe_base_url, &current.poe_base_url),
        poe_api_key_env: update_text(&input.poe_api_key_env, &current.poe_api_key_env),
        poe_model: update_text(&input.poe_model, &current.poe_model),
        alibaba_base_url: update_text(&input.alibaba_base_url, &current.alibaba_base_url),
        alibaba_api_key_env: update_text(&input.alibaba_api_key_env, &current.alibaba_api_key_env),
        alibaba_model: update_text(&input.alibaba_model, &current.alibaba_model),
        updated_at: now,
    }
}

/// What an update does to each field: a text field given with a non-blank
/// value takes that value trimmed, and keeps its current value otherwise;
/// the provider takes the given value, trimmed and in lower case, when that
/// names `poe` or `alibaba`, and keeps its current value otherwise.
pub proof fn lemma_merge_fields(current: AiProviderSettings, input: AiProviderSettingsInput, r: AiProviderSettings)
    requires
        r.text_view() == merged_settings_view(current, input),
    ensures
        input.active_provider is Some && (lowercase_of(trim_spec(input.active_provider->0@)) == "poe"@
            || lowercase_of(trim_spec(input.active_provider->0@)) == "alibaba"@) ==> r.active_provider@
            == lowercase_of(trim_spec(input.active_provider->0@)),
        !(input.active_provider is Some && (lowercase_of(trim_spec(input.active_provider->0@)) == "poe"@
            || lowercase_of(trim_spec(input.active_provider->0@)) == "alibaba"@)) ==> r.active_provider@
            == current.active_provider@,
        input.poe_base_url is Some && trim_spec(input.poe_base_url->0@).len() > 0 ==> r.poe_base_url@ == trim_spec(
            input.poe_base_url->0@,
        ),
        !(input.poe_base_url is Some && trim_spec(input.poe_base_url->0@).len() > 0) ==> r.poe_base_url@ == current.poe_base_url@,
        input.poe_api_key_env is Some && trim_spec(input.poe_api_key_env->0@).len() > 0 ==> r.poe_api_key_env@ == trim_spec(
            input.poe_api_key_env->0@,
        ),
        !(input.poe_api_key_env is Some && trim_spec(input.poe_api_key_env->0@).len() > 0) ==> r.poe_api_key_env@ == current.poe_api_key_env@,
        input.poe_model is Some && trim_spec(input.poe_model->0@).len() > 0 ==> r.poe_model@ == trim_spec(
            input.poe_model->0@,
        ),
        !(input.poe_model is Some && trim_spec(input.poe_model->0@).len() > 0) ==> r.poe_model@ == current.poe_model@,
        input.alibaba_base_url is Some && trim_spec(input.alibaba_base_url->0@).len() > 0 ==> r.alibaba_base_url@ == trim_spec(
            input.alibaba_base_url->0@,
        ),
        !(input.alibaba_base_url is Some && trim_spec(input.alibaba_base_url->0@).len() > 0) ==> r.alibaba_base_url@ == current.alibaba_base_url@,
        input.alibaba_api_key_env is Some && trim_spec(input.alibaba_api_key_env->0@).len() > 0 ==> r.alibaba_api_key_env@ == trim_spec(
            input.alibaba_api_key_env->0@,
        ),
        !(input.alibaba_api_key_env is Some && trim_spec(input.alibaba_api_key_env->0@).len() > 0) ==> r.alibaba_api_key_env@ == current.alibaba_api_key_env@,
        input.alibaba_model is Some && trim_spec(input.alibaba_model->0@).len() > 0 ==> r.alibaba_model@ == trim_spec(
            input.alibaba_model->0@,
        ),
        !(input.alibaba_model is Some && trim_spec(input.alibaba_model->0@).len() > 0) ==> r.alibaba_model@ == current.alibaba_model@,
{
    assert(r.text_view()[0] == merged_settings_view(current, input)[0]);
    assert(r.text_view()[1] == merged_settings_view(current, input)[1]);
    assert(r.text_view()[2] == merged_settings_view(current, input)[2]);
    assert(r.text_view()[3] == merged_settings_view(current, input)[3]);
    assert(r.text_view()[4] == merged_settings_view(current, input)[4]);
    assert(r.text_view()[5] == merged_settings_view(current, input)[5]);
    assert(r.text_view()[6] == merged_settings_view(current, input)[6]);
}

/// An update with no field leaves the configuration as it was (but for its
/// update time).
pub proof fn lemma_empty_update_keeps_settings(current: AiProviderSettings, input: AiProviderSettingsInput)
    requires
        input.active_provider is None,
        input.poe_base_url is None,
        input.poe_api_key_env is None,
        input.poe_model is None,
        input.alibaba_base_url is None,
        input.alibaba_api_key_env is None,
        input.alibaba_model is None,
    ensures
        merged_settings_view(current, input) == current.text_view(),
{
    assert(merged_settings_view(current, input) =~= current.text_view());
}

/// Applying the same update twice gives what applying it once gives.
pub proof fn lemma_update_idempotent(current: AiProviderSettings, once: AiProviderSettings, input: AiProviderSettingsInput)
    requires
        once.text_view() == merged_settings_view(current, input),
    ensures
        merged_settings_view(once, input) == merged_settings_view(current, input),
{
    let v = once.text_view();
    assert(v[0] == once.active_provider@);
    assert(v[1] == once.poe_base_url@);
    assert(v[2] == once.poe_api_key_env@);
    assert(v[3] == once.poe_model@);
    assert(v[4] == once.alibaba_base_url@);
    assert(v[5] == once.alibaba_api_key_env@);
    assert(v[6] == once.alibaba_model@);
    assert(merged_settings_view(once, input) =~= merged_settings_view(current, input));
}

// ─── The active provider ─────────────────────────────────────────────────────

/// Base URL, key variable, model and label of the active provider: Alibaba
/// Qwen when the provider is `alibaba`, Poe otherwise.
pub open spec fn active_view(s: AiProviderSettings) -> (Seq<char>, Seq<char>, Seq<char>, Seq<char>) {
    if s.active_provider@ == "alibaba"@ {
        (s.alibaba_base_url@, s.alibaba_api_key_env@, s.alibaba_model@, "Alibaba Qwen"@)
    } else {
        (s.poe_base_url@, s.poe_api_key_env@, s.poe_model@, "Poe"@)
    }
}

pub fn active_base_url_and_key(settings: &AiProviderSettings) -> (r: (String, String, String, String))
    ensures
        (r.0@, r.1@, r.2@, r.3@) == active_view(*settings),
{
    if str_eq(settings.active_provider.as_str(), "alibaba") {
        (
            settings.alibaba_base_url.clone(),
            settings.alibaba_api_key_env.clone(),
            settings.alibaba_model.clone(),
            lit("Alibaba Qwen"),
        )
    } else {
        (settings.poe_base_url.clone(), settings.poe_api_key_env.clone(), settings.poe_model.clone(), lit("Poe"))
    }
}

/// A base URL trimmed and without trailing slashes.
pub open spec fn normalize_url_spec(base: Seq<char>) -> Seq<char> {
    trim_end_char_spec(trim_spec(base), '/')
}

pub fn normalize_url(base: &str) -> (r: String)
    ensures
        r@ == normalize_url_spec(base@),
{
    let t = trim(base);
    trim_end_char(t.as_str(), '/')
}

/// The chat completions endpoint of a base URL.
pub fn chat_endpoint(base_url: &str) -> (r: String)
    ensures
        r@ == normalize_url_spec(base_url@) + "/chat/completions"@,
{
    let b = normalize_url(base_url);
    concat2(b.as_str(), "/chat/completions")
}

/// An API key read from the environment counts only when it is not blank.
pub fn usable_key(value: Option<String>) -> (r: Option<String>)
    ensures
        r == (match value {
            Some(v) => if is_blank_spec(v@) {
                None
            } else {
                Some(v)
            },
            None => None,
        }),
{
    match value {
        Some(v) => if is_blank(v.as_str()) {
            None
        } else {
            Some(v)
        },
        None => None,
    }
}

/// The status shown for a configuration, given which keys the environment holds.
pub fn ai_provider_status(settings: AiProviderSettings, poe_api_key_present: bool, alibaba_api_key_present: bool) -> (r: AiProviderStatus)
    ensures
        r.settings == settings,
        r.poe_api_key_present == poe_api_key_present,
        r.alibaba_api_key_present == alibaba_api_key_present,
        r.active_model@ == active_view(settings).2,
        r.active_provider_label@ == active_view(settings).3,
{
    let (_, _, model, label) = active_base_url_and_key(&settings);
    AiProviderStatus { settings, poe_api_key_present, alibaba_api_key_present, active_provider_label: label, active_model: model }
}

/// The refusal when the active provider's key is not in the environment.
pub fn missing_key_message(api_key_env: &str) -> (r: String)
    ensures
        r@ == "API key not found in environment variable '"@ + api_key_env@ + "'. Set it before streaming."@,
{
    concat3("API key not found in environment variable '", api_key_env, "'. Set it before streaming.")
}

/// The refusal when the provider answers with an error status.
pub fn provider_http_error(status: u16, body: &str) -> (r: String)
    ensures
        r@ == "Provider returned HTTP "@ + decimal_spec(status as nat) + ": "@ + body@,
{
    let code = decimal(status as u128);
    let mut r = concat3("Provider returned HTTP ", code.as_str(), ": ");
    r.append(body);
    r
}

// ─── Sessions and token accounting ───────────────────────────────────────────

/// The identifier of a session started at `nanos` nanoseconds after the epoch.
pub fn session_id_for(nanos: u128) -> (r: String)
    ensures
        r@ == "session-"@ + decimal_spec(nanos as nat),
{
    let n = decimal(nanos);
    concat2("session-", n.as_str())
}

/// The change to a session's total when a batch is saved with `token_count`
/// tokens: the count minus what a batch of the same index held before.
pub open spec fn token_delta_spec(token_count: int, existing: Option<i64>) -> int {
    token_count - match existing {
        Some(e) => e as int,
        None => 0,
    }
}

pub fn token_delta(token_count: i64, existing: Option<i64>) -> (r: i64)
    requires
        i64::MIN <= token_delta_spec(token_count as int, existing) <= i64::MAX,
    ensures
        r == token_delta_spec(token_count as int, existing),
{
    match existing {
        Some(e) => token_count - e,
        None => token_count,
    }
}

/// The saved batches of a session: pairs of batch index and token count.
pub open spec fn batch_sum(batches: Seq<(int, int)>) -> int
    decreases batches.len(),
{
    if batches.len() == 0 {
        0
    } else {
        batch_sum(batches.drop_last()) + batches.last().1
    }
}

/// The token count saved under `index`, if any.
pub open spec fn batch_count(batches: Seq<(int, int)>, index: int) -> Option<int>
    decreases batches.len(),
{
    if batches.len() == 0 {
        None
    } else if batches.last().0 == index {
        Some(batches.last().1)
    } else {
        batch_count(batches.drop_last(), index)
    }
}

/// No index is saved twice.
pub open spec fn distinct_indices(batches: Seq<(int, int)>) -> bool {
    forall|i: int, j: int| 0 <= i < j < batches.len() ==> batches[i].0 != batches[j].0
}

/// The batches after saving `count` under `index` (replacing what was there).
pub open spec fn save_batch(batches: Seq<(int, int)>, index: int, count: int) -> Seq<(int, int)>
    decreases batches.len(),
{
    if batches.len() == 0 {
        seq![(index, count)]
    } else if batches.last().0 == index {
        batches.drop_last().push((index, count))
    } else {
        save_batch(batches.drop_last(), index, count).push(batches.last())
    }
}

proof fn lemma_save_batch(batches: Seq<(int, int)>, index: int, count: int)
    requires
        distinct_indices(batches),
    ensures
        distinct_indices(save_batch(batches, index, count)),
        batch_sum(save_batch(batches, index, count)) == batch_sum(batches) + count - match batch_count(batches, index) {
            Some(e) => e,
            None => 0,
        },
        batch_count(save_batch(batches, index, count), index) == Some(count),
        forall|k: int| k != index ==> batch_count(save_batch(batches, index, count), k) == batch_count(batches, k),
    decreases batches.len(),
{
    if batches.len() == 0 {
        let out = seq![(index, count)];
        assert(out.drop_last() =~= Seq::<(int, int)>::empty());
        assert(out.last() == (index, count));
        assert(batch_sum(out) == batch_sum(out.drop_last()) + count);
        assert forall|k: int| k != index implies batch_count(out, k) == batch_count(batches, k) by {
            assert(batch_count(out, k) == batch_count(out.drop_last(), k));
        }
    } else if batches.last().0 == index {
        let rest = batches.drop_last();
        let out = rest.push((index, count));
        assert(out.drop_last() =~= rest);
        assert(out.last() == (index, count));
        assert(batch_sum(out) == batch_sum(rest) + count);
        assert(batch_sum(batches) == batch_sum(rest) + batches.last().1);
        assert forall|k: int| k != index implies batch_count(out, k) == batch_count(batches, k) by {
            assert(batch_count(out, k) == batch_count(rest, k));
        }
        assert forall|i: int, j: int| 0 <= i < j < out.len() implies out[i].0 != out[j].0 by {
            if j < rest.len() {
                assert(out[i] == batches[i] && out[j] == batches[j]);
            } else {
                assert(out[i] == batches[i]);
                assert(batches[j] == batches.last());
            }
        }
    } else {
        let rest = batches.drop_last();
        assert(distinct_indices(rest)) by {
            assert forall|i: int, j: int| 0 <= i < j < rest.len() implies rest[i].0 != rest[j].0 by {
                assert(rest[i] == batches[i] && rest[j] == batches[j]);
            }
        }
        lemma_save_batch(rest, index, count);
        let inner = save_batch(rest, index, count);
        let out = inner.push(batches.last());
        assert(out.drop_last() =~= inner);
        assert(out.last() == batches.last());
        assert(batch_sum(out) == batch_sum(inner) + batches.last().1);
        assert(batch_sum(batches) == batch_sum(rest) + batches.last().1);
        assert(batch_count(batches, index) == batch_count(rest, index));
        assert forall|k: int| k != index implies batch_count(out, k) == batch_count(batches, k) by {
            assert(batch_count(inner, k) == batch_count(rest, k));
        }
        assert forall|i: int, j: int| 0 <= i < j < out.len() implies out[i].0 != out[j].0 by {
            if j == out.len() - 1 {
                // the last entry's index occurs nowhere in `inner`
                let l = batches.last().0;
                lemma_count_none_absent(rest, l);
                assert(batch_count(inner, l) == batch_count(rest, l));
                lemma_count_none_absent(inner, l);
                assert(batch_count(rest, l) is None) by {
                    lemma_absent_count_none(rest, l, batches);
                }
            }
        }
    }
}

/// An index with no saved count occurs in no entry.
proof fn lemma_count_none_absent(batches: Seq<(int, int)>, index: int)
    ensures
        batch_count(batches, index) is None ==> forall|i: int| 0 <= i < batches.len() ==> batches[i].0 != index,
    decreases batches.len(),
{
    if batches.len() > 0 {
        lemma_count_none_absent(batches.drop_last(), index);
        if batch_count(batches, index) is None {
            assert forall|i: int| 0 <= i < batches.len() implies batches[i].0 != index by {
                if i < batches.len() - 1 {
                    assert(batches[i] == batches.drop_last()[i]);
                }
            }
        }
    }
}

/// In distinct batches, the index of the last entry has no count among the others.
proof fn lemma_absent_count_none(rest: Seq<(int, int)>, index: int, batches: Seq<(int, int)>)
    requires
        distinct_indices(batches),
        batches.len() > 0,
        rest == batches.drop_last(),
        index == batches.last().0,
    ensures
        batch_count(rest, index) is None,
{
    lemma_present_index(rest, index);
    if batch_count(rest, index) is Some {
        let i = choose|i: int| 0 <= i < rest.len() && rest[i].0 == index;
        assert(batches[i] == rest[i]);
        assert(batches[batches.len() - 1].0 == index);
    }
}

proof fn lemma_present_index(batches: Seq<(int, int)>, index: int)
    ensures
        batch_count(batches, index) is Some ==> exists|i: int| 0 <= i < batches.len() && batches[i].0 == index,
    decreases batches.len(),
{
    if batches.len() > 0 {
        lemma_present_index(batches.drop_last(), index);
        if batch_count(batches, index) is Some && batches.last().0 != index {
            let i = choose|i: int| 0 <= i < batches.drop_last().len() && batches.drop_last()[i].0 == index;
            assert(batches[i] == batches.drop_last()[i]);
        }
        if batches.last().0 == index {
            assert(batches[batches.len() - 1].0 == index);
        }
    }
}

/// A session's running total stays the sum of its saved batches: saving a
/// batch (new or resent) and adding `token_delta` of the count and what the
/// index held before keeps the total equal to the sum of the latest counts.
pub proof fn lemma_session_total_tracks_batches(batches: Seq<(int, int)>, total: int, index: i64, token_count: i64)
    requires
        distinct_indices(batches),
        total == batch_sum(batches),
        forall|i: int| 0 <= i < batches.len() ==> i64::MIN <= #[trigger] batches[i].1 <= i64::MAX,
    ensures
        ({
            let existing = match batch_count(batches, index as int) {
                Some(e) => Some(e as i64),
                None => None,
            };
            total + token_delta_spec(token_count as int, existing) == batch_sum(save_batch(batches, index as int, token_count as int))
        }),
        distinct_indices(save_batch(batches, index as int, token_count as int)),
{
    lemma_save_batch(batches, index as int, token_count as int);
    lemma_count_bounded(batches, index as int);
}

proof fn lemma_count_bounded(batches: Seq<(int, int)>, index: int)
    requires
        forall|i: int| 0 <= i < batches.len() ==> i64::MIN <= #[trigger] batches[i].1 <= i64::MAX,
    ensures
        batch_count(batches, index) matches Some(e) ==> i64::MIN <= e <= i64::MAX,
    decreases batches.len(),
{
    if batches.len() > 0 {
        let rest = batches.drop_last();
        assert forall|i: int| 0 <= i < rest.len() implies i64::MIN <= #[trigger] rest[i].1 <= i64::MAX by {
            assert(rest[i] == batches[i]);
        }
        lemma_count_bounded(rest, index);
        assert(batches[batches.len() - 1] == batches.last());
    }
}

// ─── Server-sent events ──────────────────────────────────────────────────────

/// The JSON payload of an event line: what follows `data: `, trimmed; none
/// for other lines and for the closing `[DONE]`.
pub open spec fn sse_payload_spec(line: Seq<char>) -> Option<Seq<char>> {
    if starts_with_spec(line, "data: "@) {
        let p = trim_spec(line.skip(6));
        if p == "[DONE]"@ {
            None
        } else {
            Some(p)
        }
    } else {
        None
    }
}

pub fn sse_payload(line: &str) -> (r: Option<String>)
    ensures
        crate::text::opt_view(r) == sse_payload_spec(line@),
{
    proof {
        reveal_strlit("data: ");
    }
    if !starts_with(line, "data: ") {
        return None;
    }
    let v = chars_of(line);
    let rest = slice_vec(&v, 6, v.len());
    assert(rest@ =~= line@.skip(6));
    let t = trim_chars(&rest);
    let p = string_from_chars(t.as_slice());
    if str_eq(p.as_str(), "[DONE]") {
        None
    } else {
        Some(p)
    }
}

/// A line of the event stream worth reading: not blank, not a comment.
pub open spec fn kept_line(t: Seq<char>) -> bool {
    t.len() > 0 && t[0] != ':'
}

/// The stream buffer cut at its newlines: the kept lines (trimmed) of the
/// complete lines, in order, and what follows the last newline.
pub open spec fn sse_split(s: Seq<char>) -> (Seq<Seq<char>>, Seq<char>)
    decreases s.len(),
{
    if s.len() == 0 {
        (Seq::empty(), Seq::empty())
    } else {
        let (lines, rest) = sse_split(s.drop_last());
        if s.last() == '\n' {
            let t = trim_spec(rest);
            if kept_line(t) {
                (lines.push(t), Seq::empty())
            } else {
                (lines, Seq::empty())
            }
        } else {
            (lines, rest.push(s.last()))
        }
    }
}

/// Takes the complete lines out of the stream buffer: returns the kept
/// lines, trimmed, and leaves in the buffer what follows the last newline.
pub fn drain_sse_lines(buffer: &mut String) -> (lines: Vec<String>)
    ensures
        crate::text::strings_view(lines@) == sse_split(old(buffer)@).0,
        final(buffer)@ == sse_split(old(buffer)@).1,
{
    let v = chars_of(buffer.as_str());
    let mut lines: Vec<String> = Vec::new();
    let mut rest: Vec<char> = Vec::new();
    let mut i: usize = 0;
    assert(v@.take(0) =~= Seq::<char>::empty());
    while i < v.len()
        invariant
            i <= v@.len(),
            (crate::text::strings_view(lines@), rest@) == sse_split(v@.take(i as int)),
        decreases v@.len() - i,
    {
        assert(v@.take(i + 1).drop_last() =~= v@.take(i as int));
        assert(v@.take(i + 1).last() == v@[i as int]);
        let c = v[i];
        if c == '\n' {
            let t = trim_chars(&rest);
            if t.len() > 0 && t[0] != ':' {
                let ghost before = lines@;
                lines.push(string_from_chars(t.as_slice()));
                assert(crate::text::strings_view(lines@) =~= crate::text::strings_view(before).push(t@));
            }
            rest = Vec::new();
        } else {
            rest.push(c);
        }
        i = i + 1;
    }
    assert(v@.take(v@.len() as int) =~= v@);
    *buffer = string_from_chars(rest.as_slice());
    lines
}

/// What is left in the buffer when the stream ends, if it is a line worth reading.
pub fn final_sse_line(buffer: &str) -> (r: Option<String>)
    ensures
        crate::text::opt_view(r) == (if kept_line(trim_spec(buffer@)) {
            Some(trim_spec(buffer@))
        } else {
            None
        }),
{
    let t = trim(buffer);
    let v = chars_of(t.as_str());
    if v.len() > 0 && v[0] != ':' {
        Some(t)
    } else {
        None
    }
}

} // verus!
