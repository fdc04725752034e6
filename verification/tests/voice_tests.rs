use ai_assistance::voice::{
    audio_extension, audio_file_name, decode_audio, default_settings, encode_audio,
    merge_voice_settings, speech_endpoint, speech_text, transcription_endpoint, upload_mime,
    voice_http_error, voice_key_missing, voice_status, VoiceSettingsInput,
};

fn no_changes() -> VoiceSettingsInput {
    VoiceSettingsInput {
        stt_provider: None,
        stt_base_url: None,
        stt_api_key_env: None,
        stt_model: None,
        tts_provider: None,
        tts_base_url: None,
        tts_api_key_env: None,
        tts_model: None,
        tts_voice: None,
    }
}

#[test]
fn defaults_are_openai() {
    let d = default_settings();
    assert_eq!(d.stt_model, "whisper-1");
    assert_eq!(d.tts_model, "tts-1");
    assert_eq!(d.tts_voice, "nova");
    assert_eq!(d.stt_api_key_env, "OPENAI_API_KEY");
    assert_eq!(d.updated_at, 0);
}

#[test]
fn updates_take_trimmed_non_blank_values() {
    let mut input = no_changes();
    input.tts_voice = Some("  alloy ".to_string());
    input.stt_base_url = Some("   ".to_string());
    let m = merge_voice_settings(&default_settings(), &input, 12);
    assert_eq!(m.tts_voice, "alloy");
    assert_eq!(m.stt_base_url, "https://api.openai.com/v1");
    assert_eq!(m.updated_at, 12);
    let same = merge_voice_settings(&m, &no_changes(), 13);
    assert_eq!(same.tts_voice, "alloy");
    assert_eq!(same.tts_model, m.tts_model);
}

#[test]
fn readiness_needs_key_and_url() {
    let s = voice_status(default_settings(), true, false);
    assert!(s.stt_ready);
    assert!(!s.tts_ready);
    let mut input = no_changes();
    input.stt_base_url = Some("x".to_string());
    let mut settings = merge_voice_settings(&default_settings(), &input, 1);
    settings.stt_base_url = String::new();
    let t = voice_status(settings, true, true);
    assert!(!t.stt_ready);
    assert!(t.tts_ready);
}

#[test]
fn audio_names() {
    assert_eq!(audio_extension(Some("audio/ogg;codecs=opus")), "ogg");
    assert_eq!(audio_extension(Some("audio/mpeg")), "mp3");
    assert_eq!(audio_extension(Some("audio/webm")), "webm");
    assert_eq!(audio_extension(Some("video/x-matroska")), "webm");
    assert_eq!(audio_extension(None), "webm");
    assert_eq!(audio_file_name(Some("audio/wav")), "audio.wav");
    assert_eq!(upload_mime(None), "audio/webm");
    assert_eq!(upload_mime(Some("audio/mp4")), "audio/mp4");
}

#[test]
fn endpoints_and_messages() {
    assert_eq!(transcription_endpoint(" https://api.openai.com/v1/ "), "https://api.openai.com/v1/audio/transcriptions");
    assert_eq!(speech_endpoint("https://h/v1"), "https://h/v1/audio/speech");
    assert_eq!(voice_key_missing("STT", "OPENAI_API_KEY"), "STT API key not found in env var 'OPENAI_API_KEY'");
    assert_eq!(voice_http_error("TTS", 500, "oops"), "TTS returned HTTP 500: oops");
}

#[test]
fn speech_text_is_trimmed_and_required() {
    assert_eq!(speech_text("  hello  "), Ok("hello".to_string()));
    assert_eq!(speech_text(" \n "), Err("No text provided for speech synthesis".to_string()));
}

#[test]
fn base64_round_trip() {
    assert_eq!(decode_audio("aGVsbG8="), Ok(b"hello".to_vec()));
    assert_eq!(encode_audio(b"hello"), "aGVsbG8=");
    let bad = decode_audio("!!not base64!!").unwrap_err();
    assert!(bad.starts_with("Invalid base64 audio: "));
    let bytes: Vec<u8> = (0u8..=255).collect();
    assert_eq!(decode_audio(&encode_audio(&bytes)), Ok(bytes));
}
