use spotify_importer::exchange::{Action, Event};
use spotify_importer::http::{
    album_page_path, album_path, anonymous_request, api_request, embed_request, front_request,
    playlist_page_path, playlist_path, Request, Response,
};
use spotify_importer::import::{
    advance_with_reply, begin_fetch, entity_from_embed, entity_from_next_data, fetch_request,
    get_album_tracks_via_api, get_playlist_tracks_via_api, outcome_from_embed, ApiFetch, ApiStep,
    Component, Goal, Import, Outcome, Phase,
};
use spotify_importer::json::Json;
use spotify_importer::link::SpotifyKind;
use spotify_importer::model::{CollectionType, TrackItem, Tracks};
use spotify_importer::reader::read_json;
use spotify_importer::token::TokenSearch;

const PLAYLIST: &str = "https://open.spotify.com/playlist/p1?si=x";
const ALBUM: &str = "spotify:album:a1";
const NO_TOKEN: &str = "Could not obtain Spotify access token by any available method";

fn ok(body: &str) -> Result<Response, String> {
    Ok(Response { status: 200, body: body.as_bytes().to_vec() })
}

fn lost() -> Result<Response, String> {
    Err("connection lost".to_string())
}

fn status(status: u32) -> Result<Response, String> {
    Ok(Response { status, body: vec![] })
}

fn page(next_data: &str) -> String {
    format!("<script id=\"__NEXT_DATA__\">{next_data}</script>")
}

fn entity(entity: &str) -> String {
    page(&format!("{{\"props\":{{\"pageProps\":{{\"state\":{{\"data\":{{\"entity\":{entity}}}}}}}}}}}"))
}

fn track(name: &str) -> TrackItem {
    TrackItem {
        title: name.to_string(),
        artists: vec![],
        thumbnail_url: None,
        album_title: None,
        duration_ms: None,
        is_explicit: None,
        url: None,
        source_id: None,
    }
}

fn titles(outcome: &Result<Outcome, String>) -> Vec<&str> {
    match outcome {
        Ok(Outcome::Tracks(tracks)) => tracks.items.iter().map(|t| t.title.as_str()).collect(),
        other => panic!("{:?}", other),
    }
}

/// The replies that lead to the token `tok`, with the requests that they answer.
fn token_exchange(kind: &str, id: &str) -> Vec<(Request, Result<Response, String>)> {
    vec![
        (embed_request(kind, id), lost()),
        (anonymous_request(), ok("{\"accessToken\":\"tok\"}")),
        (front_request(), lost()),
    ]
}

/// The replies that lead to no token, with the requests that they answer.
fn failed_token_exchange(kind: &str, id: &str) -> Vec<(Request, Result<Response, String>)> {
    vec![
        (embed_request(kind, id), lost()),
        (anonymous_request(), status(500)),
        (front_request(), lost()),
    ]
}

/// Runs an import to its end. It must ask for exactly what `exchange` answers.
fn run(
    import: Result<Import, String>,
    exchange: Vec<(Request, Result<Response, String>)>,
) -> Result<Outcome, String> {
    let mut import = import.unwrap();
    for (request, reply) in exchange {
        assert_eq!(import.action(), Action::Fetch(request));
        import = import.step(Event::Reply(reply)).unwrap();
    }
    assert_eq!(import.action(), Action::Finish);
    match import.phase {
        Phase::Done(outcome) => outcome,
        other => panic!("{:?}", other),
    }
}

#[test]
fn links_that_are_handled() {
    assert!(Component::can_handle_url(PLAYLIST));
    assert!(Component::can_handle_url(ALBUM));
    assert!(!Component::can_handle_url("https://open.spotify.com/track/1"));
    for url in ["https://open.spotify.com/track/1", "", "spotify:album:"] {
        assert_eq!(Component::get_collection_info(url), Err(format!("Unsupported URL: {url}")));
        assert_eq!(Component::get_tracks(url), Err(format!("Unsupported URL: {url}")));
    }
    assert_eq!(
        Component::get_tracks(PLAYLIST),
        Ok(Import {
            kind: SpotifyKind::Playlist,
            id: "p1".to_string(),
            goal: Goal::Tracks,
            phase: Phase::Token(TokenSearch::EmbedPage),
        })
    );
    assert_eq!(Component::get_collection_info(ALBUM), Import::start(ALBUM, Goal::Summary));
}

#[test]
fn summary_of_a_playlist() {
    let mut exchange = token_exchange("playlist", "p1");
    exchange.push((api_request(&playlist_path("p1"), "tok"), ok("{\"name\":\"P\"}")));
    match run(Component::get_collection_info(PLAYLIST), exchange) {
        Ok(Outcome::Summary(summary)) => {
            assert_eq!(summary.title, "P");
            assert_eq!(summary.kind, CollectionType::Playlist);
        }
        other => panic!("{:?}", other),
    }
}

#[test]
fn summary_of_an_album() {
    let mut exchange = token_exchange("album", "a1");
    exchange.push((api_request(&album_path("a1"), "tok"), ok("{\"name\":\"A\"}")));
    match run(Component::get_collection_info(ALBUM), exchange) {
        Ok(Outcome::Summary(summary)) => {
            assert_eq!(summary.title, "A");
            assert_eq!(summary.kind, CollectionType::Album);
        }
        other => panic!("{:?}", other),
    }
}

#[test]
fn tracks_of_a_playlist_over_pages() {
    let mut exchange = token_exchange("playlist", "p1");
    exchange.push((
        api_request(&playlist_page_path("p1", 0), "tok"),
        ok("{\"items\":[{\"track\":{\"name\":\"A\"}},{\"track\":null}],\"next\":\"n\"}"),
    ));
    exchange.push((
        api_request(&playlist_page_path("p1", 2), "tok"),
        ok("{\"items\":[{\"track\":{\"name\":\"B\"}}],\"next\":\"n\"}"),
    ));
    exchange.push((
        api_request(&playlist_page_path("p1", 3), "tok"),
        ok("{\"items\":[{\"track\":{\"name\":\"C\"}}],\"next\":null}"),
    ));
    let outcome = run(Component::get_tracks(PLAYLIST), exchange);
    assert_eq!(titles(&outcome), vec!["A", "B", "C"]);
}

#[test]
fn tracks_of_an_album_over_pages() {
    let mut exchange = token_exchange("album", "a1");
    exchange.push((
        api_request(&album_path("a1"), "tok"),
        ok("{\"name\":\"Al\",\"images\":[{\"url\":\"cover\"}]}"),
    ));
    exchange.push((
        api_request(&album_page_path("a1", 0), "tok"),
        ok("{\"items\":[{\"name\":\"A\"}],\"next\":\"n\"}"),
    ));
    exchange.push((api_request(&album_page_path("a1", 1), "tok"), ok("{\"items\":[],\"next\":\"n\"}")));
    let outcome = run(Component::get_tracks(ALBUM), exchange);
    assert_eq!(
        outcome,
        Ok(Outcome::Tracks(Tracks {
            items: vec![TrackItem {
                album_title: Some("Al".to_string()),
                thumbnail_url: Some("cover".to_string()),
                ..track("A")
            }]
        }))
    );
}

#[test]
fn the_embed_page_stands_in_without_a_token() {
    let mut exchange = failed_token_exchange("album", "a1");
    exchange.push((
        embed_request("album", "a1"),
        ok(&entity("{\"title\":\"Al\",\"trackList\":[{\"title\":\"A\"}]}")),
    ));
    let outcome = run(Component::get_tracks(ALBUM), exchange);
    assert_eq!(
        outcome,
        Ok(Outcome::Tracks(Tracks {
            items: vec![TrackItem { album_title: Some("Al".to_string()), ..track("A") }]
        }))
    );
}

#[test]
fn the_embed_page_stands_in_when_the_api_fails_half_way() {
    let mut exchange = token_exchange("playlist", "p1");
    exchange.push((
        api_request(&playlist_page_path("p1", 0), "tok"),
        ok("{\"items\":[{\"track\":{\"name\":\"A\"}}],\"next\":\"n\"}"),
    ));
    exchange.push((api_request(&playlist_page_path("p1", 1), "tok"), status(429)));
    exchange.push((
        embed_request("playlist", "p1"),
        ok(&entity("{\"trackList\":[{\"title\":\"X\"},{\"title\":\"Y\"}]}")),
    ));
    let outcome = run(Component::get_tracks(PLAYLIST), exchange);
    assert_eq!(titles(&outcome), vec!["X", "Y"]);
}

#[test]
fn both_ways_fail() {
    let mut exchange = token_exchange("playlist", "p1");
    exchange.push((api_request(&playlist_path("p1"), "tok"), status(401)));
    exchange.push((embed_request("playlist", "p1"), status(404)));
    assert_eq!(
        run(Component::get_collection_info(PLAYLIST), exchange),
        Err("API failed: Spotify API HTTP 401; embed fallback failed: Spotify embed returned HTTP 404"
            .to_string())
    );
    let mut exchange = failed_token_exchange("album", "a1");
    exchange.push((embed_request("album", "a1"), ok("<html>")));
    assert_eq!(
        run(Component::get_collection_info(ALBUM), exchange),
        Err(format!(
            "API failed: {NO_TOKEN}; embed fallback failed: Could not parse embed __NEXT_DATA__ payload"
        ))
    );
}

#[test]
fn entities_of_embed_pages() {
    assert_eq!(entity_from_embed(ok(&entity("7"))), Ok(Json::Number(Some(7))));
    assert_eq!(entity_from_embed(ok(&entity("null"))), Ok(Json::Null));
    assert_eq!(
        entity_from_embed(ok(&page("{\"props\":{}}"))),
        Err("Embed entity not found in __NEXT_DATA__ payload".to_string())
    );
    assert_eq!(
        entity_from_embed(ok(&page("{"))),
        Err("Could not parse embed __NEXT_DATA__ payload".to_string())
    );
    assert_eq!(entity_from_embed(lost()), Err("connection lost".to_string()));
    assert_eq!(
        entity_from_next_data(&read_json("[]").unwrap()),
        Err("Embed entity not found in __NEXT_DATA__ payload".to_string())
    );
    assert_eq!(
        outcome_from_embed(SpotifyKind::Album, Goal::Tracks, "why", ok(&entity("{}"))),
        Ok(Outcome::Tracks(Tracks { items: vec![] }))
    );
}

#[test]
fn exchanges_with_the_api() {
    let begin = |kind: SpotifyKind, goal: Goal| begin_fetch(kind, goal, "t".to_string());
    assert_eq!(
        fetch_request(&begin(SpotifyKind::Album, Goal::Tracks), SpotifyKind::Album, "a"),
        Action::Fetch(api_request("/albums/a", "t"))
    );
    assert_eq!(
        advance_with_reply(begin(SpotifyKind::Album, Goal::Tracks), SpotifyKind::Album, ok("{}")),
        Some(ApiStep::Continue(ApiFetch::AlbumPage {
            token: "t".to_string(),
            name: String::new(),
            cover: None,
            offset: 0,
            tracks: vec![],
        }))
    );
    assert_eq!(
        advance_with_reply(begin(SpotifyKind::Playlist, Goal::Tracks), SpotifyKind::Playlist, lost()),
        Some(ApiStep::Done(Err("connection lost".to_string())))
    );
    assert_eq!(
        get_playlist_tracks_via_api(
            "t".to_string(),
            100,
            vec![track("A")],
            &read_json("{\"items\":[{\"track\":{\"name\":\"B\"}}],\"next\":1}").unwrap()
        ),
        ApiStep::Continue(ApiFetch::PlaylistPage {
            token: "t".to_string(),
            offset: 101,
            tracks: vec![track("A"), track("B")],
        })
    );
    assert_eq!(
        get_album_tracks_via_api(
            "t".to_string(),
            "Al".to_string(),
            None,
            0,
            vec![track("A")],
            &read_json("{\"items\":[null]}").unwrap()
        ),
        ApiStep::Done(Ok(Outcome::Tracks(Tracks { items: vec![track("A")] })))
    );
}

#[test]
fn documents_that_cannot_be_worked_on() {
    let album_page = |offset: u32| ApiFetch::AlbumPage {
        token: "t".to_string(),
        name: String::new(),
        cover: None,
        offset,
        tracks: vec![],
    };
    assert_eq!(advance_with_reply(album_page(0), SpotifyKind::Album, ok("{\"items\":[1]}")), None);
    assert_eq!(
        advance_with_reply(album_page(u32::MAX), SpotifyKind::Album, ok("{\"items\":[{}],\"next\":1}")),
        None
    );
    let import = Import {
        kind: SpotifyKind::Album,
        id: "a".to_string(),
        goal: Goal::Tracks,
        phase: Phase::Api(album_page(0)),
    };
    assert_eq!(import.step(Event::Reply(ok("{\"items\":[true]}"))), None);
}

#[test]
fn events_that_an_import_does_not_wait_for() {
    let import = |phase: Phase| Import {
        kind: SpotifyKind::Playlist,
        id: "p".to_string(),
        goal: Goal::Summary,
        phase,
    };
    assert_eq!(import(Phase::Token(TokenSearch::EmbedPage)).step(Event::Time(1)), None);
    let fetch = || ApiFetch::Summary { token: "t".to_string() };
    assert_eq!(import(Phase::Api(fetch())).step(Event::Time(1)), None);
    assert_eq!(import(Phase::Embed { api_error: String::new() }).step(Event::Time(1)), None);
    // What is over stays over.
    let over = || import(Phase::Done(Err("e".to_string())));
    assert_eq!(over().step(Event::Time(1)), None);
    assert_eq!(over().step(Event::Reply(ok("{}"))), None);
    assert_eq!(over().action(), Action::Finish);
}

#[test]
fn the_clock_is_read_for_tokens_that_expire() {
    let mut import = Component::get_tracks(PLAYLIST).unwrap();
    for reply in [
        lost(),
        ok("{\"accessToken\":\"tok\",\"accessTokenExpirationTimestampMs\":100000}"),
        lost(),
    ] {
        import = import.step(Event::Reply(reply)).unwrap();
    }
    assert_eq!(import.action(), Action::ReadClock);
    let import = import.step(Event::Time(39)).unwrap();
    assert_eq!(import.action(), Action::Fetch(api_request(&playlist_page_path("p1", 0), "tok")));
}
