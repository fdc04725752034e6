//! Voice: speech-to-text and text-to-speech settings, readiness, and the
//! requests and replies of the two services.
use vstd::prelude::*;
use base64::Engine;
use crate::ai::{normalize_url, normalize_url_spec, updated_text};
use crate::text::{concat2, concat3, contains, contains_spec, decimal, decimal_spec, is_blank_spec, lit, trim, trim_spec};

verus! {

broadcast use vstd::string::group_string_axioms;

// ─── Types ───────────────────────────────────────────────────────────────────

/// The stored voice configuration.
pub struct VoiceSettings {
    pub stt_provider: String,
    pub stt_base_url: String,
    pub stt_api_key_env: String,
    pub stt_model: String,
    pub tts_provider: String,
    pub tts_base_url: String,
    pub tts_api_key_env: String,
    pub tts_model: String,
    pub tts_voice: String,
    pub updated_at: i64,
}

/// A partial update of the voice configuration.
pub struct VoiceSettingsInput {
    pub stt_provider: Option<String>,
    pub stt_base_url: Option<String>,
    pub stt_api_key_env: Option<String>,
    pub stt_model: Option<String>,
    pub tts_provider: Option<String>,
    pub tts_base_url: Option<String>,
    pub tts_api_key_env: Option<String>,
    pub tts_model: Option<String>,
    pub tts_voice: Option<String>,
}

/// The configuration with what the environment says of its keys.
pub struct VoiceStatus {
    pub settings: VoiceSettings,
    pub stt_api_key_present: bool,
    pub tts_api_key_present: bool,
    pub stt_ready: bool,
    pub tts_ready: bool,
}

impl VoiceSettings {
    /// The text fields, in declaration order.
    pub open spec fn text_view(&self) -> Seq<Seq<char>> {
        seq![
            self.stt_provider@,
            self.stt_base_url@,
            self.stt_api_key_env@,
            self.stt_model@,
            self.tts_provider@,
            self.tts_base_url@,
            self.tts_api_key_env@,
            self.tts_model@,
            self.tts_voice@,
        ]
    }
}

/// The configuration used before one is saved: OpenAI `whisper-1` and
/// `tts-1` with the voice `nova`, key in `OPENAI_API_KEY`.
pub fn default_settings() -> (r: VoiceSettings)
    ensures
        r.stt_provider@ == "openai"@,
        r.stt_base_url@ == "https://api.openai.com/v1"@,
        r.stt_api_key_env@ == "OPENAI_API_KEY"@,
        r.stt_model@ == "whisper-1"@,
        r.tts_provider@ == "openai"@,
        r.tts_base_url@ == "https://api.openai.com/v1"@,
        r.tts_api_key_env@ == "OPENAI_API_KEY"@,
        r.tts_model@ == "tts-1"@,
        r.tts_voice@ == "nova"@,
        r.updated_at == 0,
{
    VoiceSettings {
        stt_provider: lit("openai"),
        stt_base_url: lit("https://api.openai.com/v1"),
        stt_api_key_env: lit("OPENAI_API_KEY"),
        stt_model: lit("whisper-1"),
        tts_provider: lit("openai"),
        tts_base_url: lit("https://api.openai.com/v1"),
        tts_api_key_env: lit("OPENAI_API_KEY"),
        tts_model: lit("tts-1"),
        tts_voice: lit("nova"),
        updated_at: 0,
    }
}

fn update_text(new: &Option<String>, current: &String) -> (r: String)
    ensures
        r@ == updated_text(*new, current@),
{
    match new {
        Some(v) => {
            let t = trim(v.as_str());
            if !t.as_str().is_empty() {
                t
            } else {
                current.clone()
            }
        },
        None => current.clone(),
    }
}

/// The configuration after applying `input` to `current`.
pub open spec fn merged_voice_view(current: VoiceSettings, input: VoiceSettingsInput) -> Seq<Seq<char>> {
    seq![
        updated_text(input.stt_provider, current.stt_provider@),
        updated_text(input.stt_base_url, current.stt_base_url@),
        updated_text(input.stt_api_key_env, current.stt_api_key_env@),
        updated_text(input.stt_model, current.stt_model@),
        updated_text(input.tts_provider, current.tts_provider@),
        updated_text(input.tts_base_url, current.tts_base_url@),
        updated_text(input.tts_api_key_env, current.tts_api_key_env@),
        updated_text(input.tts_model, current.tts_model@),
        updated_text(input.tts_voice, current.tts_voice@),
    ]
}

/// Applies a settings update: each field given with a non-blank value takes
/// that value trimmed; the update time is `now`.
pub fn merge_voice_settings(current: &VoiceSettings, input: &VoiceSettingsInput, now: i64) -> (r: VoiceSettings)
    ensures
        r.text_view() == merged_voice_view(*current, *input),
        r.updated_at == now,
        input.stt_provider is Some && trim_spec(input.stt_provider->0@).len() > 0 ==> r.stt_provider@ == trim_spec(
            input.stt_provider->0@,
        ),
        !(input.stt_provider is Some && trim_spec(input.stt_provider->0@).len() > 0) ==> r.stt_provider@ == current.stt_provider@,
        input.stt_base_url is Some && trim_spec(input.stt_base_url->0@).len() > 0 ==> r.stt_base_url@ == trim_spec(
            input.stt_base_url->0@,
        ),
        !(input.stt_base_url is Some && trim_spec(input.stt_base_url->0@).len() > 0) ==> r.stt_base_url@ == current.stt_base_url@,
        input.stt_api_key_env is Some && trim_spec(input.stt_api_key_env->0@).len() > 0 ==> r.stt_api_key_env@ == trim_spec(
            input.stt_api_key_env->0@,
        ),
        !(input.stt_api_key_env is Some && trim_spec(input.stt_api_key_env->0@).len() > 0) ==> r.stt_api_key_env@ == current.stt_api_key_env@,
        input.stt_model is Some && trim_spec(input.stt_model->0@).len() > 0 ==> r.stt_model@ == trim_spec(
            input.stt_model->0@,
        ),
        !(input.stt_model is Some && trim_spec(input.stt_model->0@).len() > 0) ==> r.stt_model@ == current.stt_model@,
        input.tts_provider is Some && trim_spec(input.tts_provider->0@).len() > 0 ==> r.tts_provider@ == trim_spec(
            input.tts_provider->0@,
        ),
        !(input.tts_provider is Some && trim_spec(input.tts_provider->0@).len() > 0) ==> r.tts_provider@ == current.tts_provider@,
        input.tts_base_url is Some && trim_spec(input.tts_base_url->0@).len() > 0 ==> r.tts_base_url@ == trim_spec(
            input.tts_base_url->0@,
        ),
        !(input.tts_base_url is Some && trim_spec(input.tts_base_url->0@).len() > 0) ==> r.tts_base_url@ == current.tts_base_url@,
        input.tts_api_key_env is Some && trim_spec(input.tts_api_key_env->0@).len() > 0 ==> r.tts_api_key_env@ == trim_spec(
            input.tts_api_key_env->0@,
        ),
        !(input.tts_api_key_env is Some && trim_spec(input.tts_api_key_env->0@).len() > 0) ==> r.tts_api_key_env@ == current.tts_api_key_env@,
        input.tts_model is Some && trim_spec(input.tts_model->0@).len() > 0 ==> r.tts_model@ == trim_spec(
            input.tts_model->0@,
        ),
        !(input.tts_model is Some && trim_spec(input.tts_model->0@).len() > 0) ==> r.tts_model@ == current.tts_model@,
        input.tts_voice is Some && trim_spec(input.tts_voice->0@).len() > 0 ==> r.tts_voice@ == trim_spec(
            input.tts_voice->0@,
        ),
        !(input.tts_voice is Some && trim_spec(input.tts_voice->0@).len() > 0) ==> r.tts_voice@ == current.tts_voice@,
{
    VoiceSettings {
        stt_provider: update_text(&input.stt_provider, &current.stt_provider),
        stt_base_url: update_text(&input.stt_base_url, &current.stt_base_url),
        stt_api_key_env: update_text(&input.stt_api_key_env, &current.stt_api_key_env),
        stt_model: update_text(&input.stt_model, &current.stt_model),
        tts_provider: update_text(&input.tts_provider, &current.tts_provider),
        tts_base_url: update_text(&input.tts_base_url, &current.tts_base_url),
        tts_api_key_env: update_text(&input.tts_api_key_env, &current.tts_api_key_env),
        tts_model: update_text(&input.tts_model, &current.tts_model),
        tts_voice: update_text(&input.tts_voice, &current.tts_voice),
        updated_at: now,
    }
}

/// What an update does to each field: a field given with a non-blank value
/// takes that value trimmed, and keeps its current value otherwise.
pub proof fn lemma_voice_merge_fields(current: VoiceSettings, input: VoiceSettingsInput, r: VoiceSettings)
    requires
        r.text_view() == merged_voice_view(current, input),
    ensures
        input.stt_provider is Some && trim_spec(input.stt_provider->0@).len() > 0 ==> r.stt_provider@ == trim_spec(
            input.stt_provider->0@,
        ),
        !(input.stt_provider is Some && trim_spec(input.stt_provider->0@).len() > 0) ==> r.stt_provider@ == current.stt_provider@,
        input.stt_base_url is Some && trim_spec(input.stt_base_url->0@).len() > 0 ==> r.stt_base_url@ == trim_spec(
            input.stt_base_url->0@,
        ),
        !(input.stt_base_url is Some && trim_spec(input.stt_base_url->0@).len() > 0) ==> r.stt_base_url@ == current.stt_base_url@,
        input.stt_api_key_env is Some && trim_spec(input.stt_api_key_env->0@).len() > 0 ==> r.stt_api_key_env@ == trim_spec(
            input.stt_api_key_env->0@,
        ),
        !(input.stt_api_key_env is Some && trim_spec(input.stt_api_key_env->0@).len() > 0) ==> r.stt_api_key_env@ == current.stt_api_key_env@,
        input.stt_model is Some && trim_spec(input.stt_model->0@).len() > 0 ==> r.stt_model@ == trim_spec(
            input.stt_model->0@,
        ),
        !(input.stt_model is Some && trim_spec(input.stt_model->0@).len() > 0) ==> r.stt_model@ == current.stt_model@,
        input.tts_provider is Some && trim_spec(input.tts_provider->0@).len() > 0 ==> r.tts_provider@ == trim_spec(
            input.tts_provider->0@,
        ),
        !(input.tts_provider is Some && trim_spec(input.tts_provider->0@).len() > 0) ==> r.tts_provider@ == current.tts_provider@,
        input.tts_base_url is Some && trim_spec(input.tts_base_url->0@).len() > 0 ==> r.tts_base_url@ == trim_spec(
            input.tts_base_url->0@,
        ),
        !(input.tts_base_url is Some && trim_spec(input.tts_base_url->0@).len() > 0) ==> r.tts_base_url@ == current.tts_base_url@,
        input.tts_api_key_env is Some && trim_spec(input.tts_api_key_env->0@).len() > 0 ==> r.tts_api_key_env@ == trim_spec(
            input.tts_api_key_env->0@,
        ),
        !(input.tts_api_key_env is Some && trim_spec(input.tts_api_key_env->0@).len() > 0) ==> r.tts_api_key_env@ == current.tts_api_key_env@,
        input.tts_model is Some && trim_spec(input.tts_model->0@).len() > 0 ==> r.tts_model@ == trim_spec(
            input.tts_model->0@,
        ),
        !(input.tts_model is Some && trim_spec(input.tts_model->0@).len() > 0) ==> r.tts_model@ == current.tts_model@,
        input.tts_voice is Some && trim_spec(input.tts_voice->0@).len() > 0 ==> r.tts_voice@ == trim_spec(
            input.tts_voice->0@,
        ),
        !(input.tts_voice is Some && trim_spec(input.tts_voice->0@).len() > 0) ==> r.tts_voice@ == current.tts_voice@,
{
    assert(r.text_view()[0] == merged_voice_view(current, input)[0]);
    assert(r.text_view()[1] == merged_voice_view(current, input)[1]);
    assert(r.text_view()[2] == merged_voice_view(current, input)[2]);
    assert(r.text_view()[3] == merged_voice_view(current, input)[3]);
    assert(r.text_view()[4] == merged_voice_view(current, input)[4]);
    assert(r.text_view()[5] == merged_voice_view(current, input)[5]);
    assert(r.text_view()[6] == merged_voice_view(current, input)[6]);
    assert(r.text_view()[7] == merged_voice_view(current, input)[7]);
    assert(r.text_view()[8] == merged_voice_view(current, input)[8]);
}

/// An update with no field leaves the voice configuration as it was (but
/// for its update time).
pub proof fn lemma_empty_voice_update_keeps_settings(current: VoiceSettings, input: VoiceSettingsInput)
    requires
        input.stt_provider is None,
        input.stt_base_url is None,
        input.stt_api_key_env is None,
        input.stt_model is None,
        input.tts_provider is None,
        input.tts_base_url is None,
        input.tts_api_key_env is None,
        input.tts_model is None,
        input.tts_voice is None,
    ensures
        merged_voice_view(current, input) == current.text_view(),
{
    assert(merged_voice_view(current, input) =~= current.text_view());
}

/// A service is ready when its key is in the environment and it has a base URL.
pub fn voice_status(settings: VoiceSettings, stt_api_key_present: bool, tts_api_key_present: bool) -> (r: VoiceStatus)
    ensures
        r.settings == settings,
        r.stt_api_key_present == stt_api_key_present,
        r.tts_api_key_present == tts_api_key_present,
        r.stt_ready == (stt_api_key_present && settings.stt_base_url@.len() > 0),
        r.tts_ready == (tts_api_key_present && settings.tts_base_url@.len() > 0),
{
    let stt_ready = stt_api_key_present && !settings.stt_base_url.as_str().is_empty();
    let tts_ready = tts_api_key_present && !settings.tts_base_url.as_str().is_empty();
    VoiceStatus { settings, stt_api_key_present, tts_api_key_present, stt_ready, tts_ready }
}

// ─── Requests ────────────────────────────────────────────────────────────────

/// The file extension of an audio upload by its MIME type: the first of
/// `webm`, `ogg`, `wav`, `mp4`, `mpeg` (as `mp3`) that the type contains;
/// `webm` when none does or no type is given.
pub open spec fn audio_extension_spec(mime: Option<Seq<char>>) -> Seq<char> {
    match mime {
        Some(m) => if contains_spec(m, "webm"@) {
            "webm"@
        } else if contains_spec(m, "ogg"@) {
            "ogg"@
        } else if contains_spec(m, "wav"@) {
            "wav"@
        } else if contains_spec(m, "mp4"@) {
            "mp4"@
        } else if contains_spec(m, "mpeg"@) {
            "mp3"@
        } else {
            "webm"@
        },
        None => "webm"@,
    }
}

pub fn audio_extension(mime: Option<&str>) -> (r: String)
    ensures
        r@ == audio_extension_spec(
            match mime {
                Some(m) => Some(m@),
                None => None,
            },
        ),
{
    match mime {
        Some(m) => if contains(m, "webm") {
            lit("webm")
        } else if contains(m, "ogg") {
            lit("ogg")
        } else if contains(m, "wav") {
            lit("wav")
        } else if contains(m, "mp4") {
            lit("mp4")
        } else if contains(m, "mpeg") {
            lit("mp3")
        } else {
            lit("webm")
        },
        None => lit("webm"),
    }
}

/// The name under which the audio is uploaded.
pub fn audio_file_name(mime: Option<&str>) -> (r: String)
    ensures
        r@ == "audio."@ + audio_extension_spec(
            match mime {
                Some(m) => Some(m@),
                None => None,
            },
        ),
{
    let ext = audio_extension(mime);
    concat2("audio.", ext.as_str())
}

/// The MIME type sent with the upload: the given one, `audio/webm` otherwise.
pub fn upload_mime(mime: Option<&str>) -> (r: String)
    ensures
        r@ == match mime {
            Some(m) => m@,
            None => "audio/webm"@,
        },
{
    match mime {
        Some(m) => lit(m),
        None => lit("audio/webm"),
    }
}

/// The transcription endpoint of a base URL.
pub fn transcription_endpoint(base_url: &str) -> (r: String)
    ensures
        r@ == normalize_url_spec(base_url@) + "/audio/transcriptions"@,
{
    let b = normalize_url(base_url);
    concat2(b.as_str(), "/audio/transcriptions")
}

/// The speech endpoint of a base URL.
pub fn speech_endpoint(base_url: &str) -> (r: String)
    ensures
        r@ == normalize_url_spec(base_url@) + "/audio/speech"@,
{
    let b = normalize_url(base_url);
    concat2(b.as_str(), "/audio/speech")
}

/// The text to speak, trimmed; refused when it is blank.
pub fn speech_text(text: &str) -> (r: Result<String, String>)
    ensures
        is_blank_spec(text@) <==> r is Err,
        r matches Ok(t) ==> t@ == trim_spec(text@),
        r matches Err(e) ==> e@ == "No text provided for speech synthesis"@,
{
    let t = trim(text);
    if t.as_str().is_empty() {
        Err(lit("No text provided for speech synthesis"))
    } else {
        Ok(t)
    }
}

/// The refusal when a service's key is not in the environment (`STT` or `TTS`).
pub fn voice_key_missing(service: &str, api_key_env: &str) -> (r: String)
    ensures
        r@ == service@ + " API key not found in env var '"@ + api_key_env@ + "'"@,
{
    let mut r = concat3(service, " API key not found in env var '", api_key_env);
    r.append("'");
    r
}

/// The refusal when a service answers with an error status.
pub fn voice_http_error(service: &str, status: u16, body: &str) -> (r: String)
    ensures
        r@ == service@ + " returned HTTP "@ + decimal_spec(status as nat) + ": "@ + body@,
{
    let code = decimal(status as u128);
    let mut r = concat3(service, " returned HTTP ", code.as_str());
    r.append(": ");
    r.append(body);
    r
}

// ─── Base64 (the `base64` crate, standard alphabet) ──────────────────────────

/// What the standard base64 engine decodes a text to, when it is valid base64.
pub uninterp spec fn base64_decoded(s: Seq<char>) -> Option<Seq<u8>>;

/// What the standard base64 engine encodes bytes to.
pub uninterp spec fn base64_encoded(b: Seq<u8>) -> Seq<char>;

/// Calls `base64::engine::general_purpose::STANDARD.decode`. Trusted: it
/// succeeds exactly when the named decoding exists, and gives those bytes;
/// the error's message is the crate's own text, of which nothing is stated.
#[verifier::external_body]
fn b64_decode(s: &str) -> (r: Result<Vec<u8>, String>)
    ensures
        r is Ok <==> base64_decoded(s@) is Some,
        r matches Ok(b) ==> base64_decoded(s@) == Some(b@),
{
    match base64::engine::general_purpose::STANDARD.decode(s) {
        Ok(b) => Ok(b),
        Err(e) => Err(e.to_string()),
    }
}

/// Calls `base64::engine::general_purpose::STANDARD.encode`. Trusted: the
/// result is the named encoding of the bytes.
#[verifier::external_body]
fn b64_encode(b: &[u8]) -> (r: String)
    ensures
        r@ == base64_encoded(b@),
{
    base64::engine::general_purpose::STANDARD.encode(b)
}

/// The audio bytes of an upload given in base64; refused with the decoder's
/// message when the text is not valid base64.
pub fn decode_audio(audio_base64: &str) -> (r: Result<Vec<u8>, String>)
    ensures
        r is Ok <==> base64_decoded(audio_base64@) is Some,
        r matches Ok(b) ==> base64_decoded(audio_base64@) == Some(b@),
        r matches Err(e) ==> exists|m: Seq<char>| e@ == "Invalid base64 audio: "@ + m,
{
    match b64_decode(audio_base64) {
        Ok(b) => Ok(b),
        Err(m) => Err(concat2("Invalid base64 audio: ", m.as_str())),
    }
}

/// The synthesised audio, in base64 for the interface.
pub fn encode_audio(audio: &[u8]) -> (r: String)
    ensures
        r@ == base64_encoded(audio@),
{
    b64_encode(audio)
}

} // verus!
