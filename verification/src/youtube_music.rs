//! YouTube Music through a provider: settings, what the status reports, the
//! provider call's preconditions, the defaults of returned items and the
//! fallbacks shown when the provider cannot answer.
use vstd::prelude::*;
use crate::ai::{normalize_url, normalize_url_spec, updated_text};
use crate::files::lex_lt;
use crate::text::{
    clone_opt, concat2, concat3, decimal, decimal_spec, lit, opt_view, replace, replace_spec, trim, trim_spec,
};

verus! {

broadcast use vstd::string::group_string_axioms;

// ─── Types ───────────────────────────────────────────────────────────────────

/// The stored provider configuration.
pub struct YouTubeMusicSettings {
    pub provider_base_url: String,
    pub provider_api_key_env: Option<String>,
    pub preferred_playlist_id: Option<String>,
    pub updated_at: i64,
}

/// A partial update of the provider configuration.
pub struct YouTubeMusicSettingsInput {
    pub provider_base_url: Option<String>,
    pub provider_api_key_env: Option<String>,
    pub preferred_playlist_id: Option<String>,
}

/// What the interface shows of the provider.
pub struct YouTubeMusicStatus {
    pub settings: YouTubeMusicSettings,
    pub provider_configured: bool,
    pub api_key_present: bool,
    pub provider_reachable: bool,
    pub authenticated: bool,
    pub error: Option<String>,
}

/// A playlist.
pub struct YouTubeMusicPlaylist {
    pub title: String,
    pub playlist_id: String,
    pub track_count: Option<i64>,
    pub privacy: Option<String>,
    pub url: String,
}

/// A search hit.
pub struct YouTubeMusicSearchResult {
    pub title: String,
    pub artist: Option<String>,
    pub album: Option<String>,
    pub item_type: String,
    pub video_id: Option<String>,
    pub browse_id: Option<String>,
    pub url: Option<String>,
}

/// The fields of a playlist as the provider sent them (each text field
/// present only when it is a string).
pub struct PlaylistFields {
    pub title: Option<String>,
    pub playlist_id: Option<String>,
    pub playlist_id_camel: Option<String>,
    pub track_count: Option<i64>,
    pub privacy: Option<String>,
    pub url: Option<String>,
}

/// The fields of a search hit as the provider sent them.
pub struct SearchResultFields {
    pub title: Option<String>,
    pub artist: Option<String>,
    pub album: Option<String>,
    pub item_type: Option<String>,
    pub item_type_short: Option<String>,
    pub video_id: Option<String>,
    pub video_id_camel: Option<String>,
    pub browse_id: Option<String>,
    pub browse_id_camel: Option<String>,
    pub url: Option<String>,
}

// ─── Settings ────────────────────────────────────────────────────────────────

/// The configuration used before one is saved.
pub fn default_music_settings() -> (r: YouTubeMusicSettings)
    ensures
        r.provider_base_url@ == "https://api.poe.com/v1/music"@,
        opt_view(r.provider_api_key_env) == Some("POE_API_KEY"@),
        r.preferred_playlist_id is None,
        r.updated_at == 0,
{
    YouTubeMusicSettings {
        provider_base_url: lit("https://api.poe.com/v1/music"),
        provider_api_key_env: Some(lit("POE_API_KEY")),
        preferred_playlist_id: None,
        updated_at: 0,
    }
}

/// An optional field after an update: the new value trimmed when it is not
/// blank, else the current value.
pub open spec fn updated_opt(new: Option<String>, current: Option<Seq<char>>) -> Option<Seq<char>> {
    match new {
        Some(v) => if trim_spec(v@).len() > 0 {
            Some(trim_spec(v@))
        } else {
            current
        },
        None => current,
    }
}

fn update_opt(new: &Option<String>, current: &Option<String>) -> (r: Option<String>)
    ensures
        opt_view(r) == updated_opt(*new, opt_view(*current)),
{
    match new {
        Some(v) => {
            let t = trim(v.as_str());
            if !t.as_str().is_empty() {
                Some(t)
            } else {
                clone_opt(current)
            }
        },
        None => clone_opt(current),
    }
}

/// Applies a settings update at time `now`: each field given with a
/// non-blank value takes that value trimmed.
pub fn merge_music_settings(current: &YouTubeMusicSettings, input: &YouTubeMusicSettingsInput, now: i64) -> (r: YouTubeMusicSettings)
    ensures
        r.provider_base_url@ == updated_text(input.provider_base_url, current.provider_base_url@),
        opt_view(r.provider_api_key_env) == updated_opt(input.provider_api_key_env, opt_view(current.provider_api_key_env)),
        opt_view(r.preferred_playlist_id) == updated_opt(input.preferred_playlist_id, opt_view(current.preferred_playlist_id)),
        r.updated_at == now,
{
    let base = match &input.provider_base_url {
        Some(v) => {
            let t = trim(v.as_str());
            if !t.as_str().is_empty() {
                t
            } else {
                current.provider_base_url.clone()
            }
        },
        None => current.provider_base_url.clone(),
    };
    YouTubeMusicSettings {
        provider_base_url: base,
        provider_api_key_env: update_opt(&input.provider_api_key_env, &current.provider_api_key_env),
        preferred_playlist_id: update_opt(&input.preferred_playlist_id, &current.preferred_playlist_id),
        updated_at: now,
    }
}

/// A base URL trimmed and without trailing slashes.
pub fn normalize_base_url(base_url: &str) -> (r: String)
    ensures
        r@ == normalize_url_spec(base_url@),
{
    normalize_url(base_url)
}

// ─── Status and the provider call ────────────────────────────────────────────

/// The status of the provider. With no base URL, or no key in the
/// environment, the provider is not asked (`health` is then ignored);
/// otherwise `health` is the outcome of the health call.
pub fn music_status(settings: YouTubeMusicSettings, api_key_present: bool, health: Result<(), String>) -> (r: YouTubeMusicStatus)
    ensures
        r.settings == settings,
        r.provider_configured == (normalize_url_spec(settings.provider_base_url@).len() > 0),
        r.api_key_present == api_key_present,
        !r.provider_configured ==> !r.provider_reachable && !r.authenticated && opt_view(r.error) == Some(
            "Provider base URL is not configured"@,
        ),
        r.provider_configured && !api_key_present ==> !r.provider_reachable && !r.authenticated && opt_view(r.error)
            == Some("Provider API key is missing from environment"@),
        r.provider_configured && api_key_present ==> match health {
            Ok(_) => r.provider_reachable && r.authenticated && r.error is None,
            Err(e) => !r.provider_reachable && !r.authenticated && r.error == Some(e),
        },
{
    let base = normalize_base_url(settings.provider_base_url.as_str());
    let provider_configured = !base.as_str().is_empty();
    if !provider_configured {
        return YouTubeMusicStatus {
            settings,
            provider_configured,
            api_key_present,
            provider_reachable: false,
            authenticated: false,
            error: Some(lit("Provider base URL is not configured")),
        };
    }
    if !api_key_present {
        return YouTubeMusicStatus {
            settings,
            provider_configured,
            api_key_present,
            provider_reachable: false,
            authenticated: false,
            error: Some(lit("Provider API key is missing from environment")),
        };
    }
    match health {
        Ok(_) => YouTubeMusicStatus {
            settings,
            provider_configured,
            api_key_present,
            provider_reachable: true,
            authenticated: true,
            error: None,
        },
        Err(e) => YouTubeMusicStatus {
            settings,
            provider_configured,
            api_key_present,
            provider_reachable: false,
            authenticated: false,
            error: Some(e),
        },
    }
}

/// Whether the status asks the provider at all.
pub fn status_needs_health_check(settings: &YouTubeMusicSettings, api_key_present: bool) -> (r: bool)
    ensures
        r == (normalize_url_spec(settings.provider_base_url@).len() > 0 && api_key_present),
{
    let base = normalize_base_url(settings.provider_base_url.as_str());
    !base.as_str().is_empty() && api_key_present
}

/// Where and with which key the provider is called: refused when the key
/// is missing (checked first) or the base URL is empty.
pub fn provider_target(settings: &YouTubeMusicSettings, api_key: Option<String>) -> (r: Result<(String, String), String>)
    ensures
        api_key is None ==> (r matches Err(e) && e@ == "Provider API key env is not set"@),
        api_key matches Some(k) ==> (if normalize_url_spec(settings.provider_base_url@).len() == 0 {
            r matches Err(e) && e@ == "Provider base URL is empty"@
        } else {
            r matches Ok((u, kk)) && u@ == normalize_url_spec(settings.provider_base_url@) && kk == k
        }),
{
    let key = match api_key {
        Some(k) => k,
        None => {
            return Err(lit("Provider API key env is not set"));
        },
    };
    let base = normalize_base_url(settings.provider_base_url.as_str());
    if base.as_str().is_empty() {
        return Err(lit("Provider base URL is empty"));
    }
    Ok((base, key))
}

/// The refusal when the provider answers with an error status.
pub fn provider_failure(status: u16, body: &str) -> (r: String)
    ensures
        r@ == "Provider request failed: "@ + decimal_spec(status as nat) + " "@ + body@,
{
    let code = decimal(status as u128);
    let mut r = concat3("Provider request failed: ", code.as_str(), " ");
    r.append(body);
    r
}

// ─── Items ───────────────────────────────────────────────────────────────────

/// A text or its default.
pub open spec fn or_default(v: Option<String>, d: Seq<char>) -> Seq<char> {
    match v {
        Some(s) => s@,
        None => d,
    }
}

/// The first of two optional texts that is present.
pub open spec fn first_present(a: Option<String>, b: Option<String>) -> Option<Seq<char>> {
    match a {
        Some(s) => Some(s@),
        None => opt_view(b),
    }
}

fn text_or(v: &Option<String>, d: &str) -> (r: String)
    ensures
        r@ == or_default(*v, d@),
{
    match v {
        Some(s) => s.clone(),
        None => lit(d),
    }
}

fn first_of(a: &Option<String>, b: &Option<String>) -> (r: Option<String>)
    ensures
        opt_view(r) == first_present(*a, *b),
{
    match a {
        Some(s) => Some(s.clone()),
        None => clone_opt(b),
    }
}

/// A playlist from the provider's fields: `Untitled Playlist`, id `unknown`
/// (from `playlist_id`, else `playlistId`) and the YouTube Music home page
/// stand in for missing values.
pub fn playlist_from_fields(f: &PlaylistFields) -> (r: YouTubeMusicPlaylist)
    ensures
        r.title@ == or_default(f.title, "Untitled Playlist"@),
        r.playlist_id@ == match first_present(f.playlist_id, f.playlist_id_camel) {
            Some(x) => x,
            None => "unknown"@,
        },
        r.track_count == f.track_count,
        opt_view(r.privacy) == opt_view(f.privacy),
        r.url@ == or_default(f.url, "https://music.youtube.com"@),
{
    let id = match first_of(&f.playlist_id, &f.playlist_id_camel) {
        Some(x) => x,
        None => lit("unknown"),
    };
    YouTubeMusicPlaylist {
        title: text_or(&f.title, "Untitled Playlist"),
        playlist_id: id,
        track_count: f.track_count,
        privacy: clone_opt(&f.privacy),
        url: text_or(&f.url, "https://music.youtube.com"),
    }
}

/// A search hit from the provider's fields: `Unknown Track` and the type
/// `song` stand in for missing values; camel-case keys are the second choice.
pub fn search_result_from_fields(f: &SearchResultFields) -> (r: YouTubeMusicSearchResult)
    ensures
        r.title@ == or_default(f.title, "Unknown Track"@),
        opt_view(r.artist) == opt_view(f.artist),
        opt_view(r.album) == opt_view(f.album),
        r.item_type@ == match first_present(f.item_type, f.item_type_short) {
            Some(x) => x,
            None => "song"@,
        },
        opt_view(r.video_id) == first_present(f.video_id, f.video_id_camel),
        opt_view(r.browse_id) == first_present(f.browse_id, f.browse_id_camel),
        opt_view(r.url) == opt_view(f.url),
{
    let t = match first_of(&f.item_type, &f.item_type_short) {
        Some(x) => x,
        None => lit("song"),
    };
    YouTubeMusicSearchResult {
        title: text_or(&f.title, "Unknown Track"),
        artist: clone_opt(&f.artist),
        album: clone_opt(&f.album),
        item_type: t,
        video_id: first_of(&f.video_id, &f.video_id_camel),
        browse_id: first_of(&f.browse_id, &f.browse_id_camel),
        url: clone_opt(&f.url),
    }
}

// ─── Fallbacks ───────────────────────────────────────────────────────────────

/// The playlists offered when the provider cannot answer, ordered by title:
/// `Deep Work`, then `Focus Mix` (with the preferred playlist's id, else
/// `focus_mix`).
pub fn fallback_playlists(settings: &YouTubeMusicSettings) -> (r: Vec<YouTubeMusicPlaylist>)
    ensures
        r@.len() == 2,
        r@[0].title@ == "Deep Work"@,
        r@[0].playlist_id@ == "deep_work"@,
        r@[1].title@ == "Focus Mix"@,
        r@[1].playlist_id@ == match settings.preferred_playlist_id {
            Some(p) => p@,
            None => "focus_mix"@,
        },
        forall|i: int| 0 <= i < 2 ==> {
            &&& (#[trigger] r@[i]).track_count == Some(0i64)
            &&& opt_view(r@[i].privacy) == Some("private"@)
            &&& r@[i].url@ == "https://music.youtube.com"@
        },
        lex_lt(r@[0].title@, r@[1].title@),
{
    let focus_id = match &settings.preferred_playlist_id {
        Some(p) => p.clone(),
        None => lit("focus_mix"),
    };
    let r = vec![
        YouTubeMusicPlaylist {
            title: lit("Deep Work"),
            playlist_id: lit("deep_work"),
            track_count: Some(0),
            privacy: Some(lit("private")),
            url: lit("https://music.youtube.com"),
        },
        YouTubeMusicPlaylist {
            title: lit("Focus Mix"),
            playlist_id: focus_id,
            track_count: Some(0),
            privacy: Some(lit("private")),
            url: lit("https://music.youtube.com"),
        },
    ];
    proof {
        reveal_strlit("Deep Work");
        reveal_strlit("Focus Mix");
        assert("Deep Work"@[0] < "Focus Mix"@[0]);
    }
    r
}

/// The provider's playlists, or the fallback ones when it sent none.
pub fn playlists_or_fallback(parsed: Vec<YouTubeMusicPlaylist>, settings: &YouTubeMusicSettings) -> (r: Vec<YouTubeMusicPlaylist>)
    ensures
        parsed@.len() > 0 ==> r == parsed,
        parsed@.len() == 0 ==> r@.len() == 2,
{
    if parsed.len() > 0 {
        parsed
    } else {
        fallback_playlists(settings)
    }
}

/// The single shortcut offered when the provider cannot search: a link to
/// the YouTube Music search for the trimmed query, spaces as `+`.
pub fn fallback_search_results(query: &str) -> (r: Vec<YouTubeMusicSearchResult>)
    ensures
        r@.len() == 1,
        r@[0].title@ == "Search YouTube Music for '"@ + trim_spec(query@) + "'"@,
        opt_view(r@[0].artist) == Some("YouTube Music"@),
        r@[0].album is None,
        r@[0].item_type@ == "shortcut"@,
        r@[0].video_id is None,
        r@[0].browse_id is None,
        opt_view(r@[0].url) == Some(
            "https://music.youtube.com/search?q="@ + replace_spec(trim_spec(query@), " "@, "+"@),
        ),
{
    let t = trim(query);
    proof {
        reveal_strlit(" ");
    }
    let encoded = replace(t.as_str(), " ", "+");
    vec![
        YouTubeMusicSearchResult {
            title: concat3("Search YouTube Music for '", t.as_str(), "'"),
            artist: Some(lit("YouTube Music")),
            album: None,
            item_type: lit("shortcut"),
            video_id: None,
            browse_id: None,
            url: Some(concat2("https://music.youtube.com/search?q=", encoded.as_str())),
        },
    ]
}

/// The provider's hits, or the shortcut when it sent none.
pub fn search_results_or_fallback(parsed: Vec<YouTubeMusicSearchResult>, query: &str) -> (r: Vec<YouTubeMusicSearchResult>)
    ensures
        parsed@.len() > 0 ==> r == parsed,
        parsed@.len() == 0 ==> r@.len() == 1,
{
    if parsed.len() > 0 {
        parsed
    } else {
        fallback_search_results(query)
    }
}

} // verus!
