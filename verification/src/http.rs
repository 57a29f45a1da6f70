//! Requests to the Spotify servers, and what is read from their replies.

use vstd::prelude::*;
use vstd::utf8::{decode_utf8, valid_utf8};

use crate::json::{opt_string, Json, JsonValue};
use crate::numeral::{decimal, decimal_text, law_numeral_round_trip};
use crate::reader::{decode_bytes, json_reading, read_json, utf8_error_text};

verus! {

// ── Requests ─────────────────────────────────────────────────────────────────

/// The HTTP methods in use.
#[derive(Clone, Copy, Debug, PartialEq, Eq, Structural)]
pub enum Method {
    Get,
    Post,
}

/// A request that is to be sent.
#[derive(Debug, PartialEq, Eq)]
pub struct Request {
    pub method: Method,
    pub url: String,
    pub headers: Vec<(String, String)>,
    pub body: Option<String>,
    /// How many seconds to wait for the reply.
    pub timeout: u32,
}

/// The mathematical model of a request.
#[verifier::ext_equal]
pub struct RequestView {
    pub method: Method,
    pub url: Seq<char>,
    pub headers: Seq<(Seq<char>, Seq<char>)>,
    pub body: Option<Seq<char>>,
    pub timeout: u32,
}

/// The names and values of a list of headers.
pub open spec fn header_views(headers: Seq<(String, String)>) -> Seq<(Seq<char>, Seq<char>)> {
    headers.map_values(|h: (String, String)| (h.0@, h.1@))
}

impl View for Request {
    type V = RequestView;

    open spec fn view(&self) -> RequestView {
        RequestView {
            method: self.method,
            url: self.url@,
            headers: header_views(self.headers@),
            body: opt_string(self.body),
            timeout: self.timeout,
        }
    }
}

/// A header with the given name and value.
fn header(name: &str, value: &str) -> (r: (String, String))
    ensures
        r.0@ == name@,
        r.1@ == value@,
{
    (name.to_string(), value.to_string())
}

/// `a` followed by `b`.
pub fn joined(a: &str, b: &str) -> (r: String)
    ensures
        r@ == a@ + b@,
{
    let mut out: String = a.to_string();
    out.append(b);
    out
}

/// The request for the embed page of a collection.
pub open spec fn embed_page_request(kind: Seq<char>, id: Seq<char>) -> RequestView {
    RequestView {
        method: Method::Get,
        url: "https://open.spotify.com/embed/"@ + kind + "/"@ + id,
        headers: seq![
            (
                "User-Agent"@,
                "Mozilla/5.0 (Windows NT 10.0; Win64; x64) AppleWebKit/537.36 (KHTML, like Gecko) Chrome/131.0.0.0 Safari/537.36"@,
            ),
            ("Accept"@, "text/html,application/xhtml+xml,application/xml;q=0.9,*/*;q=0.8"@),
            ("Accept-Language"@, "en-US,en;q=0.9"@),
            ("Referer"@, "https://open.spotify.com/"@),
        ],
        body: None,
        timeout: 30,
    }
}

/// The request for the embed page of a collection.
pub fn embed_request(kind: &str, id: &str) -> (r: Request)
    ensures
        r@ == embed_page_request(kind@, id@),
{
    let mut url: String = joined("https://open.spotify.com/embed/", kind);
    url.append("/");
    url.append(id);
    let mut headers: Vec<(String, String)> = Vec::new();
    headers.push(
        header(
            "User-Agent",
            "Mozilla/5.0 (Windows NT 10.0; Win64; x64) AppleWebKit/537.36 (KHTML, like Gecko) Chrome/131.0.0.0 Safari/537.36",
        ),
    );
    headers.push(
        header("Accept", "text/html,application/xhtml+xml,application/xml;q=0.9,*/*;q=0.8"),
    );
    headers.push(header("Accept-Language", "en-US,en;q=0.9"));
    headers.push(header("Referer", "https://open.spotify.com/"));
    let r = Request { method: Method::Get, url, headers, body: None, timeout: 30 };
    assert(r@.headers == embed_page_request(kind@, id@).headers);
    r
}

/// How most requests name the browser.
pub open spec fn short_agent() -> (Seq<char>, Seq<char>) {
    ("User-Agent"@, "Mozilla/5.0 (Windows NT 10.0; Win64; x64) AppleWebKit/537.36"@)
}

/// How most requests name the browser.
fn short_agent_header() -> (r: (String, String))
    ensures
        (r.0@, r.1@) == short_agent(),
{
    header("User-Agent", "Mozilla/5.0 (Windows NT 10.0; Win64; x64) AppleWebKit/537.36")
}

/// The request for a token of an anonymous visitor.
pub open spec fn anonymous_token_request() -> RequestView {
    RequestView {
        method: Method::Get,
        url: "https://open.spotify.com/get_access_token?reason=transport&productType=web_player"@,
        headers: seq![("Accept"@, "application/json"@), short_agent()],
        body: None,
        timeout: 20,
    }
}

/// The request for a token of an anonymous visitor.
pub fn anonymous_request() -> (r: Request)
    ensures
        r@ == anonymous_token_request(),
{
    let url: String =
        "https://open.spotify.com/get_access_token?reason=transport&productType=web_player".to_string();
    let mut headers: Vec<(String, String)> = Vec::new();
    headers.push(header("Accept", "application/json"));
    headers.push(short_agent_header());
    let r = Request { method: Method::Get, url, headers, body: None, timeout: 20 };
    assert(r@.headers == anonymous_token_request().headers);
    r
}

/// The request for the front page of the web player.
pub open spec fn front_page_request() -> RequestView {
    RequestView {
        method: Method::Get,
        url: "https://open.spotify.com/"@,
        headers: seq![
            short_agent(),
            ("Accept"@, "text/html,application/xhtml+xml,application/xml;q=0.9,*/*;q=0.8"@),
        ],
        body: None,
        timeout: 20,
    }
}

/// The request for the front page of the web player.
pub fn front_request() -> (r: Request)
    ensures
        r@ == front_page_request(),
{
    let url: String = "https://open.spotify.com/".to_string();
    let mut headers: Vec<(String, String)> = Vec::new();
    headers.push(short_agent_header());
    headers.push(
        header("Accept", "text/html,application/xhtml+xml,application/xml;q=0.9,*/*;q=0.8"),
    );
    let r = Request { method: Method::Get, url, headers, body: None, timeout: 20 };
    assert(r@.headers == front_page_request().headers);
    r
}

/// The request for a script of the web player.
pub open spec fn script_file_request(url: Seq<char>) -> RequestView {
    RequestView {
        method: Method::Get,
        url,
        headers: seq![short_agent()],
        body: None,
        timeout: 20,
    }
}

/// The request for a script of the web player.
pub fn script_request(url: &str) -> (r: Request)
    ensures
        r@ == script_file_request(url@),
{
    let mut headers: Vec<(String, String)> = Vec::new();
    headers.push(short_agent_header());
    let r = Request {
        method: Method::Get,
        url: url.to_string(),
        headers,
        body: None,
        timeout: 20,
    };
    assert(r@.headers == script_file_request(url@).headers);
    r
}

/// The request for a token by client credentials.
pub open spec fn grant_token_request(client_id: Seq<char>) -> RequestView {
    RequestView {
        method: Method::Post,
        url: "https://accounts.spotify.com/api/token"@,
        headers: seq![
            ("Content-Type"@, "application/x-www-form-urlencoded"@),
            ("Accept"@, "application/json"@),
        ],
        body: Some("grant_type=client_credentials&client_id="@ + client_id),
        timeout: 20,
    }
}

/// The request for a token by client credentials.
pub fn grant_request(client_id: &str) -> (r: Request)
    ensures
        r@ == grant_token_request(client_id@),
{
    let mut headers: Vec<(String, String)> = Vec::new();
    headers.push(header("Content-Type", "application/x-www-form-urlencoded"));
    headers.push(header("Accept", "application/json"));
    let r = Request {
        method: Method::Post,
        url: "https://accounts.spotify.com/api/token".to_string(),
        headers,
        body: Some(joined("grant_type=client_credentials&client_id=", client_id)),
        timeout: 20,
    };
    assert(r@.headers == grant_token_request(client_id@).headers);
    r
}

/// The request for what stands at `path` of the API.
pub open spec fn api_path_request(path: Seq<char>, token: Seq<char>) -> RequestView {
    RequestView {
        method: Method::Get,
        url: "https://api.spotify.com/v1"@ + path,
        headers: seq![
            ("Authorization"@, "Bearer "@ + token),
            ("Accept"@, "application/json"@),
            short_agent(),
        ],
        body: None,
        timeout: 30,
    }
}

/// The request for what stands at `path` of the API.
pub fn api_request(path: &str, token: &str) -> (r: Request)
    ensures
        r@ == api_path_request(path@, token@),
{
    let bearer: String = joined("Bearer ", token);
    let mut headers: Vec<(String, String)> = Vec::new();
    headers.push(header("Authorization", bearer.as_str()));
    headers.push(header("Accept", "application/json"));
    headers.push(short_agent_header());
    let r = Request {
        method: Method::Get,
        url: joined("https://api.spotify.com/v1", path),
        headers,
        body: None,
        timeout: 30,
    };
    assert(r@.headers == api_path_request(path@, token@).headers);
    r
}

// ── Paths of the API ─────────────────────────────────────────────────────────

/// Where the API describes a playlist.
pub open spec fn playlist_info_path(id: Seq<char>) -> Seq<char> {
    "/playlists/"@ + id + "?fields=name,description,owner(display_name),images,tracks(total)"@
}

/// Where the API describes an album.
pub open spec fn album_info_path(id: Seq<char>) -> Seq<char> {
    "/albums/"@ + id
}

/// Where the API lists the tracks of a playlist from `offset` on.
pub open spec fn playlist_tracks_path(id: Seq<char>, offset: nat) -> Seq<char> {
    "/playlists/"@ + id + "/tracks?offset="@ + decimal_text(offset)
        + "&limit=100&fields=total,next,items(track(id,name,duration_ms,is_local,explicit,artists(name),album(name,images(url))))"@
}

/// Where the API lists the tracks of an album from `offset` on.
pub open spec fn album_tracks_path(id: Seq<char>, offset: nat) -> Seq<char> {
    "/albums/"@ + id + "/tracks?offset="@ + decimal_text(offset) + "&limit=50"@
}

/// Where the API describes the playlist `id`.
pub fn playlist_path(id: &str) -> (r: String)
    ensures
        r@ == playlist_info_path(id@),
{
    let mut path: String = joined("/playlists/", id);
    path.append("?fields=name,description,owner(display_name),images,tracks(total)");
    path
}

/// Where the API describes the album `id`.
pub fn album_path(id: &str) -> (r: String)
    ensures
        r@ == album_info_path(id@),
{
    joined("/albums/", id)
}

/// Where the API lists the tracks of the playlist `id` from `offset` on.
pub fn playlist_page_path(id: &str, offset: u32) -> (r: String)
    ensures
        r@ == playlist_tracks_path(id@, offset as nat),
{
    let mut path: String = joined("/playlists/", id);
    path.append("/tracks?offset=");
    path.append(decimal(offset as u64).as_str());
    path.append(
        "&limit=100&fields=total,next,items(track(id,name,duration_ms,is_local,explicit,artists(name),album(name,images(url))))",
    );
    path
}

/// Where the API lists the tracks of the album `id` from `offset` on.
pub fn album_page_path(id: &str, offset: u32) -> (r: String)
    ensures
        r@ == album_tracks_path(id@, offset as nat),
{
    let mut path: String = joined("/albums/", id);
    path.append("/tracks?offset=");
    path.append(decimal(offset as u64).as_str());
    path.append("&limit=50");
    path
}

// ── Replies ──────────────────────────────────────────────────────────────────

/// What a server answered.
#[derive(Debug, PartialEq, Eq)]
pub struct Response {
    pub status: u32,
    pub body: Vec<u8>,
}

/// The mathematical model of a response.
#[verifier::ext_equal]
pub struct ResponseView {
    pub status: u32,
    pub body: Seq<u8>,
}

impl View for Response {
    type V = ResponseView;

    open spec fn view(&self) -> ResponseView {
        ResponseView { status: self.status, body: self.body@ }
    }
}

/// The model of a reply: a response, or the wording of why there is none.
pub open spec fn reply_view(reply: Result<Response, String>) -> Result<ResponseView, Seq<char>> {
    match reply {
        Ok(response) => Ok(response@),
        Err(message) => Err(message@),
    }
}

/// The text, or the wording of the error, that `r` holds.
pub open spec fn text_result(r: Result<String, String>) -> Result<Seq<char>, Seq<char>> {
    match r {
        Ok(s) => Ok(s@),
        Err(message) => Err(message@),
    }
}

/// The document, or the wording of the error, that `r` holds.
pub open spec fn json_result(r: Result<Json, String>) -> Result<JsonValue, Seq<char>> {
    match r {
        Ok(json) => Ok(json@),
        Err(message) => Err(message@),
    }
}

/// A status that stands for success.
pub open spec fn is_success(status: u32) -> bool {
    200 <= status < 300
}

/// The characters of a body, or the wording of why it is not text.
pub open spec fn body_text(body: Seq<u8>) -> Result<Seq<char>, Seq<char>> {
    if valid_utf8(body) {
        Ok(decode_utf8(body))
    } else {
        Err(utf8_error_text(body))
    }
}

/// The embed page in a reply, or the wording of why there is none.
pub open spec fn embed_html(reply: Result<ResponseView, Seq<char>>) -> Result<Seq<char>, Seq<char>> {
    match reply {
        Ok(response) => if is_success(response.status) {
            body_text(response.body)
        } else {
            Err("Spotify embed returned HTTP "@ + decimal_text(response.status as nat))
        },
        Err(message) => Err(message),
    }
}

/// The text in a reply, if it is a success and text.
pub open spec fn reply_text(reply: Result<ResponseView, Seq<char>>) -> Option<Seq<char>> {
    match reply {
        Ok(response) => if is_success(response.status) && valid_utf8(response.body) {
            Some(decode_utf8(response.body))
        } else {
            None
        },
        Err(_) => None,
    }
}

/// The document in a reply, if it is a success and JSON.
pub open spec fn reply_document(reply: Result<ResponseView, Seq<char>>) -> Option<JsonValue> {
    match reply_text(reply) {
        Some(text) => match json_reading(text) {
            Ok(value) => Some(value),
            Err(_) => None,
        },
        None => None,
    }
}

/// The document in a reply of the API, or the wording of why there is none.
pub open spec fn api_document(reply: Result<ResponseView, Seq<char>>) -> Result<JsonValue, Seq<char>> {
    match reply {
        Ok(response) => if is_success(response.status) {
            match body_text(response.body) {
                Ok(text) => match json_reading(text) {
                    Ok(value) => Ok(value),
                    Err(message) => Err("JSON parse error: "@ + message),
                },
                Err(message) => Err(message),
            }
        } else {
            Err("Spotify API HTTP "@ + decimal_text(response.status as nat))
        },
        Err(message) => Err(message),
    }
}

/// Whether `status` stands for success.
pub(crate) fn status_ok(status: u32) -> (r: bool)
    ensures
        r == is_success(status),
{
    200 <= status && status < 300
}

/// The embed page in `reply`.
pub fn fetch_embed_html(reply: Result<Response, String>) -> (r: Result<String, String>)
    ensures
        text_result(r) == embed_html(reply_view(reply)),
{
    match reply {
        Ok(response) => {
            if status_ok(response.status) {
                decode_bytes(response.body)
            } else {
                Err(
                    joined(
                        "Spotify embed returned HTTP ",
                        decimal(response.status as u64).as_str(),
                    ),
                )
            }
        },
        Err(message) => Err(message),
    }
}

/// The text in `reply`, if it is a success and text.
pub fn success_text(reply: Result<Response, String>) -> (r: Option<String>)
    ensures
        opt_string(r) == reply_text(reply_view(reply)),
{
    match reply {
        Ok(response) => {
            if status_ok(response.status) {
                match decode_bytes(response.body) {
                    Ok(text) => Some(text),
                    Err(_) => None,
                }
            } else {
                None
            }
        },
        Err(_) => None,
    }
}

/// The document in `reply`, if it is a success and JSON.
pub fn success_document(reply: Result<Response, String>) -> (r: Option<Json>)
    ensures
        match r {
            Some(json) => reply_document(reply_view(reply)) == Some(json@) && json@.well_formed(),
            None => reply_document(reply_view(reply)) is None,
        },
{
    match success_text(reply) {
        Some(text) => match read_json(text.as_str()) {
            Ok(json) => Some(json),
            Err(_) => None,
        },
        None => None,
    }
}

/// The document in the reply `reply` of the API.
pub fn api_get(reply: Result<Response, String>) -> (r: Result<Json, String>)
    ensures
        json_result(r) == api_document(reply_view(reply)),
        r matches Ok(json) ==> json@.well_formed(),
{
    match reply {
        Ok(response) => {
            if !status_ok(response.status) {
                return Err(
                    joined("Spotify API HTTP ", decimal(response.status as u64).as_str()),
                );
            }
            match decode_bytes(response.body) {
                Ok(text) => match read_json(text.as_str()) {
                    Ok(json) => Ok(json),
                    Err(message) => Err(joined("JSON parse error: ", message.as_str())),
                },
                Err(message) => Err(message),
            }
        },
        Err(message) => Err(message),
    }
}

// ── Laws ─────────────────────────────────────────────────────────────────────

/// Every request goes to the address that its arguments make up. What the API is asked is
/// asked with the token, and a token is asked for with the client identifier in the body.
pub proof fn law_request_addresses(
    kind: Seq<char>,
    id: Seq<char>,
    url: Seq<char>,
    client_id: Seq<char>,
    path: Seq<char>,
    token: Seq<char>,
)
    ensures
        embed_page_request(kind, id).url == "https://open.spotify.com/embed/"@ + kind + "/"@ + id,
        script_file_request(url).url == url,
        grant_token_request(client_id).method == Method::Post,
        grant_token_request(client_id).body == Some(
            "grant_type=client_credentials&client_id="@ + client_id,
        ),
        api_path_request(path, token).url == "https://api.spotify.com/v1"@ + path,
        api_path_request(path, token).headers.contains(("Authorization"@, "Bearer "@ + token)),
        forall|i: int|
            0 <= i < api_path_request(path, token).headers.len() && (#[trigger] api_path_request(
                path,
                token,
            ).headers[i]).0 == "Authorization"@ ==> api_path_request(path, token).headers[i].1
                == "Bearer "@ + token,
{
    let r = api_path_request(path, token);
    assert(r.headers[0] == ("Authorization"@, "Bearer "@ + token));
    reveal_strlit("Authorization");
    reveal_strlit("Accept");
    reveal_strlit("User-Agent");
    assert("Authorization"@.len() != "Accept"@.len());
    assert("Authorization"@.len() != "User-Agent"@.len());
}

/// A request is what the other requests of its sort are but for the address, the body and
/// the token, whatever it is for.
pub proof fn law_requests_are_alike(
    kind: Seq<char>,
    id: Seq<char>,
    other_kind: Seq<char>,
    other_id: Seq<char>,
    path: Seq<char>,
    other_path: Seq<char>,
    token: Seq<char>,
)
    ensures
        embed_page_request(kind, id) == (RequestView {
            url: embed_page_request(kind, id).url,
            ..embed_page_request(other_kind, other_id)
        }),
        script_file_request(path) == (RequestView { url: path, ..script_file_request(other_path) }),
        grant_token_request(path) == (RequestView {
            body: grant_token_request(path).body,
            ..grant_token_request(other_path)
        }),
        api_path_request(path, token) == (RequestView {
            url: api_path_request(path, token).url,
            ..api_path_request(other_path, token)
        }),
{
}

/// The paths of the API name the collection and, for a page of tracks, the place at which
/// the page begins.
pub proof fn law_api_paths(id: Seq<char>, offset: nat)
    ensures
        playlist_info_path(id) == "/playlists/"@ + id
            + "?fields=name,description,owner(display_name),images,tracks(total)"@,
        album_info_path(id) == "/albums/"@ + id,
        playlist_tracks_path(id, offset) == "/playlists/"@ + id + "/tracks?offset="@ + decimal_text(
            offset,
        )
            + "&limit=100&fields=total,next,items(track(id,name,duration_ms,is_local,explicit,artists(name),album(name,images(url))))"@,
        album_tracks_path(id, offset) == "/albums/"@ + id + "/tracks?offset="@ + decimal_text(offset)
            + "&limit=50"@,
{
}

/// Different pages are asked for by different paths.
pub proof fn law_pages_have_their_paths(id: Seq<char>, offset: nat, other: nat)
    requires
        offset != other,
    ensures
        playlist_tracks_path(id, offset) != playlist_tracks_path(id, other),
        album_tracks_path(id, offset) != album_tracks_path(id, other),
{
    law_numeral_round_trip(offset);
    law_numeral_round_trip(other);
    let (x, y) = (decimal_text(offset), decimal_text(other));
    assert(x != y);
    let a = "/playlists/"@ + id + "/tracks?offset="@;
    let b = "/albums/"@ + id + "/tracks?offset="@;
    let c =
        "&limit=100&fields=total,next,items(track(id,name,duration_ms,is_local,explicit,artists(name),album(name,images(url))))"@;
    let d = "&limit=50"@;
    lemma_middle_differs(a, x, y, c);
    lemma_middle_differs(b, x, y, d);
}

/// Texts that differ in the middle differ.
proof fn lemma_middle_differs(a: Seq<char>, x: Seq<char>, y: Seq<char>, c: Seq<char>)
    requires
        x != y,
    ensures
        a + x + c != a + y + c,
{
    if a + x + c == a + y + c {
        assert((a + x + c).len() == (a + y + c).len());
        assert forall|i: int| 0 <= i < x.len() implies x[i] == y[i] by {
            assert((a + x + c)[a.len() + i] == x[i]);
            assert((a + y + c)[a.len() + i] == y[i]);
        }
        assert(x =~= y);
    }
}

/// A reply with a status from 200 to 299 and a body that is text is read as that text, by
/// whomever it was sent.
pub proof fn law_replies_with_text(response: ResponseView)
    requires
        200 <= response.status <= 299,
        valid_utf8(response.body),
    ensures
        embed_html(Ok(response)) == Ok::<Seq<char>, Seq<char>>(decode_utf8(response.body)),
        reply_text(Ok(response)) == Some(decode_utf8(response.body)),
        match json_reading(decode_utf8(response.body)) {
            Ok(v) => {
                &&& reply_document(Ok(response)) == Some(v)
                &&& api_document(Ok(response)) == Ok::<JsonValue, Seq<char>>(v)
            },
            Err(message) => {
                &&& reply_document(Ok(response)) is None
                &&& api_document(Ok(response)) == Err::<JsonValue, Seq<char>>(
                    "JSON parse error: "@ + message,
                )
            },
        },
{
}

/// A reply with another status is an error that words the status, one that is not text
/// is the error of the decoder, and one that did not come is the error that says so.
pub proof fn law_replies_that_fail(response: ResponseView, message: Seq<char>)
    ensures
        !(200 <= response.status <= 299) ==> {
            &&& embed_html(Ok(response)) == Err::<Seq<char>, Seq<char>>(
                "Spotify embed returned HTTP "@ + decimal_text(response.status as nat),
            )
            &&& api_document(Ok(response)) == Err::<JsonValue, Seq<char>>(
                "Spotify API HTTP "@ + decimal_text(response.status as nat),
            )
            &&& reply_text(Ok(response)) is None
            &&& reply_document(Ok(response)) is None
        },
        200 <= response.status <= 299 && !valid_utf8(response.body) ==> {
            &&& embed_html(Ok(response)) == Err::<Seq<char>, Seq<char>>(
                utf8_error_text(response.body),
            )
            &&& api_document(Ok(response)) == Err::<JsonValue, Seq<char>>(
                utf8_error_text(response.body),
            )
            &&& reply_text(Ok(response)) is None
            &&& reply_document(Ok(response)) is None
        },
        embed_html(Err(message)) == Err::<Seq<char>, Seq<char>>(message),
        api_document(Err(message)) == Err::<JsonValue, Seq<char>>(message),
        reply_text(Err(message)) is None,
        reply_document(Err(message)) is None,
{
}

/// The model of a request, of a response and of a reply has what they have.
pub proof fn law_exchange_model(request: Request, response: Response, message: String, json: Json)
    ensures
        request@.method == request.method,
        request@.url == request.url@,
        request@.body == opt_string(request.body),
        request@.timeout == request.timeout,
        request@.headers.len() == request.headers@.len(),
        forall|i: int|
            0 <= i < request.headers@.len() ==> (#[trigger] request@.headers[i]).0
                == request.headers@[i].0@ && request@.headers[i].1 == request.headers@[i].1@,
        response@.status == response.status,
        response@.body == response.body@,
        reply_view(Ok(response)) == Ok::<ResponseView, Seq<char>>(response@),
        reply_view(Err(message)) == Err::<ResponseView, Seq<char>>(message@),
        text_result(Ok(message)) == Ok::<Seq<char>, Seq<char>>(message@),
        text_result(Err(message)) == Err::<Seq<char>, Seq<char>>(message@),
        json_result(Ok(json)) == Ok::<JsonValue, Seq<char>>(json@),
        json_result(Err(message)) == Err::<JsonValue, Seq<char>>(message@),
{
}

} // verus!
