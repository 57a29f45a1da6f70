use spotify_importer::http::{
    album_page_path, album_path, anonymous_request, api_get, api_request, embed_request,
    fetch_embed_html, front_request, grant_request, playlist_page_path, playlist_path,
    script_request, success_document, success_text, Method, Request, Response,
};
use spotify_importer::json::Json;

fn ok(status: u32, body: &[u8]) -> Result<Response, String> {
    Ok(Response { status, body: body.to_vec() })
}

fn headers(request: &Request) -> Vec<(&str, &str)> {
    request.headers.iter().map(|(n, v)| (n.as_str(), v.as_str())).collect()
}

const AGENT: &str = "Mozilla/5.0 (Windows NT 10.0; Win64; x64) AppleWebKit/537.36";
const PAGE: &str = "text/html,application/xhtml+xml,application/xml;q=0.9,*/*;q=0.8";

#[test]
fn request_for_an_embed_page() {
    let r = embed_request("album", "1a");
    assert_eq!(r.method, Method::Get);
    assert_eq!(r.url, "https://open.spotify.com/embed/album/1a");
    assert_eq!(
        headers(&r),
        vec![
            (
                "User-Agent",
                "Mozilla/5.0 (Windows NT 10.0; Win64; x64) AppleWebKit/537.36 (KHTML, like Gecko) Chrome/131.0.0.0 Safari/537.36"
            ),
            ("Accept", PAGE),
            ("Accept-Language", "en-US,en;q=0.9"),
            ("Referer", "https://open.spotify.com/"),
        ]
    );
    assert_eq!(r.body, None);
    assert_eq!(r.timeout, 30);
}

#[test]
fn requests_for_tokens() {
    let r = anonymous_request();
    assert_eq!(
        r.url,
        "https://open.spotify.com/get_access_token?reason=transport&productType=web_player"
    );
    assert_eq!(headers(&r), vec![("Accept", "application/json"), ("User-Agent", AGENT)]);
    assert_eq!((r.method, r.body, r.timeout), (Method::Get, None, 20));

    let r = front_request();
    assert_eq!(r.url, "https://open.spotify.com/");
    assert_eq!(headers(&r), vec![("User-Agent", AGENT), ("Accept", PAGE)]);
    assert_eq!((r.method, r.body, r.timeout), (Method::Get, None, 20));

    let r = script_request("https://x/a.js");
    assert_eq!(r.url, "https://x/a.js");
    assert_eq!(headers(&r), vec![("User-Agent", AGENT)]);
    assert_eq!((r.method, r.body, r.timeout), (Method::Get, None, 20));

    let r = grant_request("c1");
    assert_eq!(r.url, "https://accounts.spotify.com/api/token");
    assert_eq!(
        headers(&r),
        vec![
            ("Content-Type", "application/x-www-form-urlencoded"),
            ("Accept", "application/json")
        ]
    );
    assert_eq!(r.method, Method::Post);
    assert_eq!(r.body, Some("grant_type=client_credentials&client_id=c1".to_string()));
    assert_eq!(r.timeout, 20);
}

#[test]
fn requests_to_the_api() {
    let r = api_request("/albums/1", "tok");
    assert_eq!(r.url, "https://api.spotify.com/v1/albums/1");
    assert_eq!(
        headers(&r),
        vec![
            ("Authorization", "Bearer tok"),
            ("Accept", "application/json"),
            ("User-Agent", AGENT)
        ]
    );
    assert_eq!((r.method, r.body, r.timeout), (Method::Get, None, 30));
    assert_eq!(
        playlist_path("p"),
        "/playlists/p?fields=name,description,owner(display_name),images,tracks(total)"
    );
    assert_eq!(album_path("a"), "/albums/a");
    assert_eq!(
        playlist_page_path("p", 100),
        "/playlists/p/tracks?offset=100&limit=100&fields=total,next,items(track(id,name,duration_ms,is_local,explicit,artists(name),album(name,images(url))))"
    );
    assert_eq!(album_page_path("a", 0), "/albums/a/tracks?offset=0&limit=50");
}

#[test]
fn embed_pages_in_replies() {
    assert_eq!(fetch_embed_html(ok(200, "é".as_bytes())), Ok("é".to_string()));
    assert_eq!(fetch_embed_html(ok(299, b"")), Ok(String::new()));
    assert_eq!(
        fetch_embed_html(ok(404, b"x")),
        Err("Spotify embed returned HTTP 404".to_string())
    );
    assert_eq!(
        fetch_embed_html(ok(300, b"x")),
        Err("Spotify embed returned HTTP 300".to_string())
    );
    assert_eq!(
        fetch_embed_html(ok(199, b"x")),
        Err("Spotify embed returned HTTP 199".to_string())
    );
    assert_eq!(fetch_embed_html(Err("timed out".to_string())), Err("timed out".to_string()));
    assert_eq!(
        fetch_embed_html(ok(200, &[b'a', 0xff])).unwrap_err(),
        String::from_utf8(vec![b'a', 0xff]).unwrap_err().to_string()
    );
}

#[test]
fn texts_in_replies() {
    assert_eq!(success_text(ok(200, b"a")), Some("a".to_string()));
    assert_eq!(success_text(ok(500, b"a")), None);
    assert_eq!(success_text(ok(200, &[0xc3])), None);
    assert_eq!(success_text(Err("e".to_string())), None);
}

#[test]
fn documents_in_replies() {
    assert_eq!(success_document(ok(200, b"[1]")), Some(Json::Array(vec![Json::Number(Some(1))])));
    assert_eq!(success_document(ok(200, b"[1")), None);
    assert_eq!(success_document(ok(404, b"[1]")), None);
}

#[test]
fn documents_of_the_api() {
    assert_eq!(api_get(ok(200, b"null")), Ok(Json::Null));
    assert_eq!(api_get(ok(429, b"null")), Err("Spotify API HTTP 429".to_string()));
    assert_eq!(
        api_get(ok(200, b"{")),
        Err("JSON parse error: EOF while parsing an object at line 1 column 1".to_string())
    );
    assert_eq!(
        api_get(ok(200, &[0xff])).unwrap_err(),
        String::from_utf8(vec![0xff]).unwrap_err().to_string()
    );
    assert_eq!(api_get(Err("refused".to_string())), Err("refused".to_string()));
}
