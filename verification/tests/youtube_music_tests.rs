use ai_assistance::youtube_music::{
    default_music_settings, fallback_playlists, fallback_search_results, merge_music_settings,
    music_status, normalize_base_url, playlist_from_fields, playlists_or_fallback, provider_failure,
    provider_target, search_result_from_fields, search_results_or_fallback,
    status_needs_health_check, PlaylistFields, SearchResultFields, YouTubeMusicSettingsInput,
};

#[test]
fn fallback_playlists_are_sorted_by_title() {
    let mut s = default_music_settings();
    let p = fallback_playlists(&s);
    assert_eq!(p.len(), 2);
    assert_eq!(p[0].title, "Deep Work");
    assert_eq!(p[1].title, "Focus Mix");
    assert_eq!(p[1].playlist_id, "focus_mix");
    assert_eq!(p[0].privacy.as_deref(), Some("private"));
    s.preferred_playlist_id = Some("PL123".to_string());
    assert_eq!(fallback_playlists(&s)[1].playlist_id, "PL123");
    assert_eq!(playlists_or_fallback(Vec::new(), &s).len(), 2);
}

#[test]
fn search_shortcut() {
    let r = fallback_search_results("  lo fi beats ");
    assert_eq!(r.len(), 1);
    assert_eq!(r[0].title, "Search YouTube Music for 'lo fi beats'");
    assert_eq!(r[0].url.as_deref(), Some("https://music.youtube.com/search?q=lo+fi+beats"));
    assert_eq!(r[0].item_type, "shortcut");
    assert_eq!(r[0].artist.as_deref(), Some("YouTube Music"));
    assert_eq!(search_results_or_fallback(Vec::new(), "x").len(), 1);
}

#[test]
fn settings_updates() {
    let d = default_music_settings();
    assert_eq!(d.provider_base_url, "https://api.poe.com/v1/music");
    assert_eq!(d.provider_api_key_env.as_deref(), Some("POE_API_KEY"));
    let m = merge_music_settings(
        &d,
        &YouTubeMusicSettingsInput {
            provider_base_url: Some(" ".to_string()),
            provider_api_key_env: Some(" YT_KEY ".to_string()),
            preferred_playlist_id: Some("  ".to_string()),
        },
        9,
    );
    assert_eq!(m.provider_base_url, "https://api.poe.com/v1/music");
    assert_eq!(m.provider_api_key_env.as_deref(), Some("YT_KEY"));
    assert_eq!(m.preferred_playlist_id, None);
    assert_eq!(m.updated_at, 9);
    assert_eq!(normalize_base_url(" https://x/y// "), "https://x/y");
}

#[test]
fn status_decisions() {
    let d = default_music_settings();
    assert!(status_needs_health_check(&d, true));
    let ok = music_status(d, true, Ok(()));
    assert!(ok.provider_reachable && ok.authenticated && ok.error.is_none());
    let mut blank = default_music_settings();
    blank.provider_base_url = " / ".to_string();
    assert!(!status_needs_health_check(&blank, true));
    let s = music_status(blank, true, Ok(()));
    assert!(!s.provider_configured);
    assert_eq!(s.error.as_deref(), Some("Provider base URL is not configured"));
    let nokey = music_status(default_music_settings(), false, Ok(()));
    assert_eq!(nokey.error.as_deref(), Some("Provider API key is missing from environment"));
    let down = music_status(default_music_settings(), true, Err("timeout".to_string()));
    assert!(!down.provider_reachable);
    assert_eq!(down.error.as_deref(), Some("timeout"));
}

#[test]
fn provider_call_preconditions() {
    let d = default_music_settings();
    assert_eq!(provider_target(&d, None), Err("Provider API key env is not set".to_string()));
    let mut blank = default_music_settings();
    blank.provider_base_url = "".to_string();
    assert_eq!(provider_target(&blank, Some("k".to_string())), Err("Provider base URL is empty".to_string()));
    assert_eq!(
        provider_target(&d, Some("k".to_string())),
        Ok(("https://api.poe.com/v1/music".to_string(), "k".to_string()))
    );
    assert_eq!(provider_failure(403, "denied"), "Provider request failed: 403 denied");
}

#[test]
fn item_defaults() {
    let p = playlist_from_fields(&PlaylistFields {
        title: None,
        playlist_id: None,
        playlist_id_camel: Some("PLx".to_string()),
        track_count: Some(3),
        privacy: None,
        url: None,
    });
    assert_eq!(p.title, "Untitled Playlist");
    assert_eq!(p.playlist_id, "PLx");
    assert_eq!(p.url, "https://music.youtube.com");
    let s = search_result_from_fields(&SearchResultFields {
        title: Some("Song".to_string()),
        artist: None,
        album: None,
        item_type: None,
        item_type_short: None,
        video_id: Some("v1".to_string()),
        video_id_camel: Some("v2".to_string()),
        browse_id: None,
        browse_id_camel: Some("b".to_string()),
        url: None,
    });
    assert_eq!(s.item_type, "song");
    assert_eq!(s.video_id.as_deref(), Some("v1"));
    assert_eq!(s.browse_id.as_deref(), Some("b"));
}
