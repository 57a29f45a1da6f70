use spotify_importer::json::Json;
use spotify_importer::listing::{
    album_items_ok, get_album_tracks_via_embed, get_playlist_tracks_via_embed, next_offset_ok,
    read_album_page, read_playlist_page,
};
use spotify_importer::model::TrackItem;
use spotify_importer::reader::read_json;
use spotify_importer::track::{parse_api_track, parse_embed_track, split_artists_subtitle};

fn json(text: &str) -> Json {
    read_json(text).unwrap()
}

fn some(s: &str) -> Option<String> {
    Some(s.to_string())
}

fn titles(tracks: &[TrackItem]) -> Vec<&str> {
    tracks.iter().map(|t| t.title.as_str()).collect()
}

#[test]
fn full_track_of_the_api() {
    let track = json(
        "{\"name\":\"  Song \",\"artists\":[{\"name\":\"A\"},{\"id\":1},{\"name\":\"B \"}],\"id\":\"t1\",\
         \"album\":{\"name\":\"Al\",\"images\":[{\"url\":\"u\"},{\"url\":\"v\"}]},\
         \"duration_ms\":1234,\"explicit\":true}",
    );
    assert_eq!(
        parse_api_track(&track),
        Some(TrackItem {
            title: "Song".to_string(),
            artists: vec!["A".to_string(), "B ".to_string()],
            thumbnail_url: some("u"),
            album_title: some("Al"),
            duration_ms: Some(1234),
            is_explicit: Some(true),
            url: some("https://open.spotify.com/track/t1"),
            source_id: some("t1"),
        })
    );
}

#[test]
fn sparse_track_of_the_api() {
    assert_eq!(
        parse_api_track(&json("{\"name\":\"S\",\"artists\":3,\"duration_ms\":-1,\"explicit\":\"no\"}")),
        Some(TrackItem {
            title: "S".to_string(),
            artists: vec![],
            thumbnail_url: None,
            album_title: None,
            duration_ms: None,
            is_explicit: None,
            url: None,
            source_id: None,
        })
    );
}

#[test]
fn no_track_of_the_api() {
    for text in ["{}", "{\"name\":\" \\u00a0\"}", "{\"name\":1}", "null", "[]", "{\"title\":\"x\"}"] {
        assert_eq!(parse_api_track(&json(text)), None);
    }
}

#[test]
fn artists_of_a_subtitle() {
    assert_eq!(split_artists_subtitle("A, B\u{a0}C,,  , D"), vec!["A", "B", "C", "D"]);
    assert_eq!(split_artists_subtitle(" , \u{a0}"), Vec::<String>::new());
    assert_eq!(split_artists_subtitle("Solo"), vec!["Solo"]);
}

#[test]
fn a_no_break_space_separates_like_a_comma() {
    for s in ["A\u{a0}B", "A,\u{a0}B", "\u{a0}", "", "x y,z\u{a0}\u{a0}w"] {
        let replaced = s.replace('\u{a0}', ",");
        let expected: Vec<String> = replaced
            .split(',')
            .map(str::trim)
            .filter(|p| !p.is_empty())
            .map(str::to_string)
            .collect();
        assert_eq!(split_artists_subtitle(s), expected);
    }
}

#[test]
fn full_track_of_an_embed_page() {
    let item = json(
        "{\"title\":\" Song \",\"subtitle\":\"A,\u{a0}B\",\"uri\":\"spotify:track:t2\",\"duration\":99,\
         \"isExplicit\":false,\"visualIdentity\":{\"image\":[{\"url\":\"vi\"}]}}",
    );
    assert_eq!(
        parse_embed_track(&item, Some("Al"), Some("cover")),
        Some(TrackItem {
            title: "Song".to_string(),
            artists: vec!["A".to_string(), "B".to_string()],
            thumbnail_url: some("vi"),
            album_title: some("Al"),
            duration_ms: Some(99),
            is_explicit: Some(false),
            url: some("https://open.spotify.com/track/t2"),
            source_id: some("t2"),
        })
    );
}

#[test]
fn preferences_in_an_embed_page() {
    let item = json(
        "{\"name\":\"N\",\"title\":\"T\",\"artists\":[{\"name\":\"X\"}],\"subtitle\":\"Y\",\"id\":\"i\",\
         \"uri\":\"spotify:track:u\",\"album\":{\"name\":\"Own\",\"images\":[{\"url\":\"own\"}]},\
         \"duration_ms\":1,\"duration\":2,\"explicit\":true,\"isExplicit\":false}",
    );
    let t = parse_embed_track(&item, Some("Al"), Some("cover")).unwrap();
    assert_eq!(t.title, "N");
    assert_eq!(t.artists, vec!["X"]);
    assert_eq!(t.source_id, some("i"));
    assert_eq!(t.thumbnail_url, some("own"));
    assert_eq!(t.album_title, some("Own"));
    assert_eq!(t.duration_ms, Some(1));
    assert_eq!(t.is_explicit, Some(true));
}

#[test]
fn fallbacks_in_an_embed_page() {
    let t = parse_embed_track(&json("{\"title\":\"T\",\"uri\":\"x\"}"), Some("Al"), Some("c")).unwrap();
    assert_eq!(t.thumbnail_url, some("c"));
    assert_eq!(t.album_title, some("Al"));
    assert_eq!((t.source_id, t.url), (None, None));
    assert_eq!(t.artists, Vec::<String>::new());
    let t = parse_embed_track(&json("{\"title\":\"T\"}"), None, None).unwrap();
    assert_eq!((t.thumbnail_url, t.album_title), (None, None));
    // A name that is no text hides the title.
    assert_eq!(parse_embed_track(&json("{\"name\":1,\"title\":\"T\"}"), None, None), None);
    assert_eq!(parse_embed_track(&json("{\"name\":\" \"}"), None, None), None);
    assert_eq!(parse_embed_track(&json("3"), None, None), None);
}

#[test]
fn page_of_a_playlist() {
    let data = json(
        "{\"items\":[{\"track\":{\"name\":\"A\"}},{\"track\":{\"name\":\"L\",\"is_local\":true}},{},\
         {\"track\":null},{\"track\":{\"name\":\"B\",\"is_local\":false}}],\"next\":\"more\"}",
    );
    assert!(next_offset_ok(&data, 100));
    let page = read_playlist_page(&data, 100);
    assert_eq!(titles(&page.tracks), vec!["A", "B"]);
    assert_eq!(page.next_offset, Some(105));
}

#[test]
fn last_page_of_a_playlist() {
    for text in [
        "{\"items\":[{\"track\":{\"name\":\"A\"}}],\"next\":null}",
        "{\"items\":[{\"track\":{\"name\":\"A\"}}]}",
    ] {
        let page = read_playlist_page(&json(text), 0);
        assert_eq!(titles(&page.tracks), vec!["A"]);
        assert_eq!(page.next_offset, None);
    }
    for text in ["{\"items\":[],\"next\":\"more\"}", "{\"next\":\"more\"}", "{\"items\":1}"] {
        let page = read_playlist_page(&json(text), 0);
        assert_eq!(page.tracks, vec![]);
        assert_eq!(page.next_offset, None);
    }
}

#[test]
fn place_of_the_next_page_must_fit() {
    let data = json("{\"items\":[1,2],\"next\":\"more\"}");
    assert!(next_offset_ok(&data, u32::MAX - 2));
    assert!(!next_offset_ok(&data, u32::MAX - 1));
    assert!(next_offset_ok(&json("{\"items\":[1,2],\"next\":null}"), u32::MAX));
    assert!(next_offset_ok(&json("{\"items\":[],\"next\":1}"), u32::MAX));
    assert!(next_offset_ok(&json("{}"), u32::MAX));
}

#[test]
fn page_of_an_album() {
    let data = json(
        "{\"items\":[{\"name\":\"A\"},null,{\"name\":\"B\",\"album\":{\"name\":\"Own\"}}],\"next\":\"m\"}",
    );
    assert!(album_items_ok(&data));
    let page = read_album_page(&data, "Al", &some("cover"), 50);
    assert_eq!(titles(&page.tracks), vec!["A", "B"]);
    assert_eq!(page.tracks[0].album_title, some("Al"));
    assert_eq!(page.tracks[0].thumbnail_url, some("cover"));
    assert_eq!(page.tracks[1].album_title, some("Own"));
    assert_eq!(page.tracks[1].thumbnail_url, None);
    assert_eq!(page.next_offset, Some(53));
    let page = read_album_page(&json("{\"items\":[{\"name\":\"A\"}]}"), "", &None, 0);
    assert_eq!(page.tracks[0].album_title, some(""));
    assert_eq!(page.tracks[0].thumbnail_url, None);
}

#[test]
fn items_that_cannot_be_given_an_album() {
    for text in ["{\"items\":[1]}", "{\"items\":[{},\"x\"]}", "{\"items\":[[]]}", "{\"items\":[true]}"] {
        assert!(!album_items_ok(&json(text)));
    }
    assert!(album_items_ok(&json("{}")));
}

#[test]
fn lists_of_embed_pages() {
    let entity = json(
        "{\"name\":\"Al\",\"images\":[],\"visualIdentity\":{\"image\":[{\"url\":\"vi\"}]},\
         \"trackList\":[{\"title\":\"A\"},{},{\"title\":\"B\"}]}",
    );
    let tracks = get_playlist_tracks_via_embed(&entity);
    assert_eq!(titles(&tracks), vec!["A", "B"]);
    assert_eq!((&tracks[0].album_title, &tracks[0].thumbnail_url), (&None, &None));
    let tracks = get_album_tracks_via_embed(&entity);
    assert_eq!(titles(&tracks), vec!["A", "B"]);
    assert_eq!(tracks[1].album_title, some("Al"));
    assert_eq!(tracks[1].thumbnail_url, some("vi"));
    assert_eq!(get_playlist_tracks_via_embed(&json("{}")), vec![]);
    let entity = json("{\"title\":\"T\",\"images\":[{\"url\":\"i\"}],\"trackList\":[{\"title\":\"A\"}]}");
    let tracks = get_album_tracks_via_embed(&entity);
    assert_eq!(tracks[0].album_title, some("T"));
    assert_eq!(tracks[0].thumbnail_url, some("i"));
}
