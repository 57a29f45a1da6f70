use spotify_importer::link::{parse_url, uri_to_id, SpotifyKind};

fn playlist(id: &str) -> Option<(SpotifyKind, String)> {
    Some((SpotifyKind::Playlist, id.to_string()))
}

fn album(id: &str) -> Option<(SpotifyKind, String)> {
    Some((SpotifyKind::Album, id.to_string()))
}

#[test]
fn words_for_kinds() {
    assert_eq!(SpotifyKind::Playlist.as_str(), "playlist");
    assert_eq!(SpotifyKind::Album.as_str(), "album");
}

#[test]
fn uris() {
    assert_eq!(parse_url("spotify:playlist:37i9"), playlist("37i9"));
    assert_eq!(parse_url("spotify:album:1a: more"), album("1a"));
    assert_eq!(parse_url("  spotify:album: 1a \n"), album("1a"));
    assert_eq!(parse_url("spotify:track:1a"), None);
    assert_eq!(parse_url("spotify:album"), None);
    assert_eq!(parse_url("spotify:album: "), None);
    assert_eq!(parse_url("spotify:Album:1"), None);
}

#[test]
fn share_urls_with_every_head() {
    for scheme in ["https://", "http://", ""] {
        for www in ["www.", ""] {
            for host in ["open.spotify.com/", "spotify.com/", ""] {
                for tail in ["", "?si=1", "#t", "/x"] {
                    let head = format!("{scheme}{www}{host}");
                    assert_eq!(parse_url(&format!("{head}playlist/37i9{tail}")), playlist("37i9"));
                    assert_eq!(parse_url(&format!(" {head}album/Ab{tail} ")), album("Ab"));
                }
            }
        }
    }
}

#[test]
fn share_urls_that_lead_nowhere() {
    assert_eq!(parse_url(""), None);
    assert_eq!(parse_url("https://open.spotify.com/track/1"), None);
    assert_eq!(parse_url("https://open.spotify.com/playlist/"), None);
    assert_eq!(parse_url("https://open.spotify.com/playlist/?si=1"), None);
    assert_eq!(parse_url("https://open.spotify.com/album/%20").is_some(), true);
    assert_eq!(parse_url("https://example.com/playlist/1"), None);
    assert_eq!(parse_url("https://open.spotify.com/intl-de/album/1"), None);
}

#[test]
fn heads_may_be_repeated() {
    assert_eq!(parse_url("https://https://open.open.spotify.com/album/1"), None);
    assert_eq!(parse_url("https://https://www.www.spotify.com/open.album/1"), album("1"));
}

#[test]
fn identifiers_in_uris() {
    assert_eq!(uri_to_id("spotify:track:4uLU"), Some("4uLU".to_string()));
    assert_eq!(uri_to_id("a:b: c :d"), Some("c".to_string()));
    assert_eq!(uri_to_id("a:b:"), None);
    assert_eq!(uri_to_id("a:b"), None);
    assert_eq!(uri_to_id(""), None);
}
