use spotify_importer::collection::{
    get_album_info_via_api, get_album_info_via_embed, get_playlist_info_via_api,
    get_playlist_info_via_embed, truncate,
};
use spotify_importer::json::Json;
use spotify_importer::model::{CollectionSummary, CollectionType};
use spotify_importer::reader::read_json;

fn json(text: &str) -> Json {
    read_json(text).unwrap()
}

fn some(s: &str) -> Option<String> {
    Some(s.to_string())
}

#[test]
fn low_bits() {
    assert_eq!(truncate(7), 7);
    assert_eq!(truncate(4294967295), 4294967295);
    assert_eq!(truncate(4294967296), 0);
    assert_eq!(truncate(u64::MAX), u32::MAX);
}

#[test]
fn playlist_of_the_api() {
    let data = json(
        "{\"name\":\"P\",\"description\":\"d\",\"owner\":{\"display_name\":\"o\"},\
         \"images\":[{\"url\":\"u\"}],\"tracks\":{\"total\":4294967298}}",
    );
    assert_eq!(
        get_playlist_info_via_api(&data),
        CollectionSummary {
            title: "P".to_string(),
            kind: CollectionType::Playlist,
            description: some("d"),
            owner: some("o"),
            thumbnail_url: some("u"),
            track_count: Some(2),
        }
    );
}

#[test]
fn empty_playlist_of_the_api() {
    for text in ["{\"description\":\"\"}", "[]", "{\"name\":null,\"images\":[],\"tracks\":{}}"] {
        assert_eq!(
            get_playlist_info_via_api(&json(text)),
            CollectionSummary {
                title: String::new(),
                kind: CollectionType::Playlist,
                description: None,
                owner: None,
                thumbnail_url: None,
                track_count: None,
            }
        );
    }
}

#[test]
fn album_of_the_api() {
    let data = json(
        "{\"name\":\"A\",\"description\":\"d\",\"artists\":[{\"name\":\"x\"},{\"name\":\"y\"}],\
         \"images\":[{\"url\":\"u\"}],\"tracks\":{\"total\":12}}",
    );
    assert_eq!(
        get_album_info_via_api(&data),
        CollectionSummary {
            title: "A".to_string(),
            kind: CollectionType::Album,
            description: None,
            owner: some("x"),
            thumbnail_url: some("u"),
            track_count: Some(12),
        }
    );
}

#[test]
fn playlist_of_an_embed_page() {
    let entity = json(
        "{\"title\":\"P\",\"description\":\"d\",\"subtitle\":\"s\",\
         \"coverArt\":{\"sources\":[{\"url\":\"c\"}]},\"trackList\":[1,2,3]}",
    );
    assert_eq!(
        get_playlist_info_via_embed(&entity),
        CollectionSummary {
            title: "P".to_string(),
            kind: CollectionType::Playlist,
            description: some("d"),
            owner: some("s"),
            thumbnail_url: some("c"),
            track_count: Some(3),
        }
    );
    let entity = json(
        "{\"name\":\"N\",\"title\":\"P\",\"owner\":{\"display_name\":\"o\"},\"subtitle\":\"s\",\
         \"images\":[{\"url\":\"i\"}],\"tracks\":{\"total\":9},\"trackList\":[1]}",
    );
    let summary = get_playlist_info_via_embed(&entity);
    assert_eq!(summary.title, "N");
    assert_eq!(summary.owner, some("o"));
    assert_eq!(summary.thumbnail_url, some("i"));
    assert_eq!(summary.track_count, Some(9));
}

#[test]
fn album_of_an_embed_page() {
    let entity = json(
        "{\"title\":\"A\",\"description\":\"d\",\"subtitle\":\"s\",\
         \"visualIdentity\":{\"image\":[{\"url\":\"v\"}]},\"trackList\":[1]}",
    );
    assert_eq!(
        get_album_info_via_embed(&entity),
        CollectionSummary {
            title: "A".to_string(),
            kind: CollectionType::Album,
            description: None,
            owner: some("s"),
            thumbnail_url: some("v"),
            track_count: Some(1),
        }
    );
    let entity = json("{\"artists\":[{\"name\":\"x\"}],\"subtitle\":\"s\",\"total_tracks\":5}");
    let summary = get_album_info_via_embed(&entity);
    assert_eq!(summary.title, "");
    assert_eq!(summary.owner, some("x"));
    assert_eq!(summary.thumbnail_url, None);
    assert_eq!(summary.track_count, Some(5));
}
