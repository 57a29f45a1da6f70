use spotify_importer::exchange::{Action, Event};
use spotify_importer::http::{
    anonymous_request, embed_request, front_request, grant_request, script_request, Response,
};
use spotify_importer::reader::read_json;
use spotify_importer::token::{
    choose_token, extract_client_id_from_web, get_access_token, grant_from_data,
    is_token_still_valid, token_from_anonymous_data, token_from_anonymous_endpoint,
    token_from_client_credentials, token_from_embed, token_from_embed_html, token_from_next_data,
    token_from_text, token_request, AccessToken, ClientIdSearch, ClientIdStep, Grant, TokenSearch,
    TokenStep,
};

const CLIENT_ID: &str = "0123456789abcdefABCDEF0123456789";

fn ok(body: &str) -> Result<Response, String> {
    Ok(Response { status: 200, body: body.as_bytes().to_vec() })
}

fn refused() -> Result<Response, String> {
    Ok(Response { status: 403, body: b"{}".to_vec() })
}

fn lost() -> Result<Response, String> {
    Err("connection lost".to_string())
}

fn not_text() -> Result<Response, String> {
    Ok(Response { status: 200, body: vec![0xff] })
}

fn token(token: &str, expires_at: Option<u64>) -> AccessToken {
    AccessToken { token: token.to_string(), expires_at }
}

fn page(next_data: &str) -> String {
    format!("<html><script id=\"__NEXT_DATA__\" type=\"application/json\">{next_data}</script></html>")
}

fn no_token() -> TokenStep {
    TokenStep::Done(Err("Could not obtain Spotify access token by any available method".to_string()))
}

fn script(url: &str, rest: &[&str]) -> ClientIdSearch {
    ClientIdSearch::Script {
        url: url.to_string(),
        rest: rest.iter().map(|s| s.to_string()).collect(),
    }
}

/// Feeds the events to a search from its beginning.
fn run(events: Vec<Event>) -> Option<TokenStep> {
    let mut step = TokenStep::Continue(TokenSearch::EmbedPage);
    for event in events {
        step = match step {
            TokenStep::Continue(search) => get_access_token(search, event)?,
            TokenStep::Done(_) => panic!("the search is over"),
        };
    }
    Some(step)
}

#[test]
fn token_in_embedded_data() {
    let read = |text: &str| token_from_next_data(&read_json(text).unwrap());
    assert_eq!(
        read("{\"props\":{\"pageProps\":{\"state\":{\"accessToken\":\"t\",\"accessTokenExpirationTimestampMs\":12999}}}}"),
        Some(token("t", Some(12)))
    );
    assert_eq!(
        read("{\"props\":{\"pageProps\":{\"state\":{\"access_token\":\"u\"}}}}"),
        Some(token("u", None))
    );
    for text in [
        "{}",
        "{\"props\":{\"pageProps\":{\"state\":{}}}}",
        "{\"props\":{\"pageProps\":{\"state\":{\"accessToken\":\"\",\"access_token\":\"u\"}}}}",
        "{\"props\":{\"pageProps\":{\"state\":{\"accessToken\":null,\"access_token\":\"u\"}}}}",
    ] {
        assert_eq!(read(text), None);
    }
}

#[test]
fn token_written_in_a_page() {
    assert_eq!(
        token_from_text("{\"accessToken\":\" t \",\"accessTokenExpirationTimestampMs\": 5000 ,"),
        Some(token("t", Some(5)))
    );
    assert_eq!(
        token_from_text("accessToken:\\\"t\\\" \"accessTokenExpirationTimestampMs\":+7000,"),
        Some(token("t\\", Some(7)))
    );
    assert_eq!(
        token_from_text("\"accessToken\":\"t\" \"accessTokenExpirationTimestampMs\":x,"),
        Some(token("t", None))
    );
    assert_eq!(
        token_from_text("\"accessToken\":\" \" accessToken:\\\"second\""),
        Some(token("second", None))
    );
    assert_eq!(token_from_text("\"accessToken\":\"t"), None);
    assert_eq!(token_from_text(""), None);
}

#[test]
fn embedded_data_comes_before_what_is_written() {
    let state = "{\"props\":{\"pageProps\":{\"state\":{\"accessToken\":\"t\"}}}}";
    assert_eq!(token_from_embed_html(&page(state)), Some(token("t", None)));
    // Data without a state hides a token that is written elsewhere.
    assert_eq!(token_from_embed_html(&page("{\"accessToken\":\"t\"}")), None);
    // Data that cannot be read does not.
    assert_eq!(token_from_embed_html(&page("{\"accessToken\":\"t\"")), Some(token("t", None)));
    assert_eq!(token_from_embed(ok(&page(state))), Some(token("t", None)));
    assert_eq!(token_from_embed(refused()), None);
    assert_eq!(token_from_embed(lost()), None);
}

#[test]
fn token_of_the_anonymous_endpoint() {
    let data = read_json("{\"accessToken\":\"\",\"accessTokenExpirationTimestampMs\":1000}").unwrap();
    assert_eq!(token_from_anonymous_data(&data), Some(token("", Some(1))));
    assert_eq!(
        token_from_anonymous_endpoint(ok("{\"accessToken\":\"a\",\"accessTokenExpirationTimestampMs\":\"9\"}")),
        Some(token("a", None))
    );
    assert_eq!(token_from_anonymous_endpoint(ok("{\"access_token\":\"a\"}")), None);
    assert_eq!(token_from_anonymous_endpoint(ok("oops")), None);
    assert_eq!(token_from_anonymous_endpoint(refused()), None);
    assert_eq!(token_from_anonymous_endpoint(lost()), None);
}

#[test]
fn client_identifier_of_the_front_page() {
    let front = format!("x \"clientId\":\"{CLIENT_ID}\" src=\"a.js\"");
    assert_eq!(
        extract_client_id_from_web(ClientIdSearch::FrontPage, ok(&front)),
        ClientIdStep::Done(Some(CLIENT_ID.to_string()))
    );
    assert_eq!(
        extract_client_id_from_web(ClientIdSearch::FrontPage, ok("src=\"/a.js\" src=\"b.png\" src=\"//c.js\"")),
        ClientIdStep::Continue(script("https://open.spotify.com/a.js", &["https://c.js"]))
    );
    for reply in [ok("nothing"), refused(), lost(), not_text()] {
        assert_eq!(
            extract_client_id_from_web(ClientIdSearch::FrontPage, reply),
            ClientIdStep::Done(None)
        );
    }
}

#[test]
fn client_identifier_of_a_script() {
    let text = format!("client_id:\\\"{CLIENT_ID}\"");
    assert_eq!(
        extract_client_id_from_web(script("a", &["b"]), ok(&text)),
        ClientIdStep::Done(Some(CLIENT_ID.to_string()))
    );
    for reply in [ok("nothing"), refused()] {
        assert_eq!(
            extract_client_id_from_web(script("a", &["b", "c"]), reply),
            ClientIdStep::Continue(script("b", &["c"]))
        );
    }
    assert_eq!(extract_client_id_from_web(script("a", &[]), refused()), ClientIdStep::Done(None));
    for reply in [lost(), not_text()] {
        assert_eq!(
            extract_client_id_from_web(script("a", &["b", "c"]), reply),
            ClientIdStep::Done(None)
        );
    }
}

#[test]
fn granted_tokens() {
    let data = read_json("{\"access_token\":\"g\",\"expires_in\":3600}").unwrap();
    assert_eq!(
        grant_from_data(&data),
        Some(Grant { token: "g".to_string(), expires_in: Some(3600) })
    );
    assert_eq!(
        token_from_client_credentials(ok("{\"access_token\":\"g\"}")),
        Some(Grant { token: "g".to_string(), expires_in: None })
    );
    assert_eq!(token_from_client_credentials(ok("{\"accessToken\":\"g\"}")), None);
    assert_eq!(token_from_client_credentials(refused()), None);
}

#[test]
fn validity_ends_a_minute_early() {
    assert!(is_token_still_valid(Some(1061), 1000));
    assert!(!is_token_still_valid(Some(1060), 1000));
    assert!(!is_token_still_valid(Some(0), 0));
    assert!(is_token_still_valid(None, u64::MAX));
    // What is good later was good before.
    assert!(is_token_still_valid(Some(1061), 999));
}

#[test]
fn the_first_good_candidate_is_chosen() {
    let candidates = || vec![token("a", Some(100)), token("b", Some(1000)), token("c", None)];
    assert_eq!(choose_token(candidates(), 0), TokenStep::Done(Ok("a".to_string())));
    assert_eq!(
        choose_token(candidates(), 40),
        TokenStep::Continue(TokenSearch::Choice {
            candidates: vec![token("b", Some(1000)), token("c", None)]
        })
    );
    assert_eq!(
        choose_token(vec![token("b", Some(1000)), token("c", None)], 5000),
        TokenStep::Done(Ok("c".to_string()))
    );
    assert_eq!(choose_token(vec![token("a", Some(1))], 5000), no_token());
    assert_eq!(choose_token(vec![], 0), no_token());
}

#[test]
fn every_source_is_asked_before_the_choice() {
    let embed = page("{\"props\":{\"pageProps\":{\"state\":{\"accessToken\":\"e\"}}}}");
    let mut search = TokenSearch::EmbedPage;
    assert_eq!(
        token_request(&search, "album", "1"),
        Action::Fetch(embed_request("album", "1"))
    );
    for (reply, next) in [
        (ok(&embed), anonymous_request()),
        (ok("{\"accessToken\":\"a\"}"), front_request()),
        (ok("src=\"x.js\""), script_request("x.js")),
        (ok(&format!("\"client_id\":\"{CLIENT_ID}\"")), grant_request(CLIENT_ID)),
    ] {
        search = match get_access_token(search, Event::Reply(reply)) {
            Some(TokenStep::Continue(search)) => search,
            other => panic!("{:?}", other),
        };
        assert_eq!(token_request(&search, "album", "1"), Action::Fetch(next));
    }
    search = match get_access_token(search, Event::Reply(ok("{\"access_token\":\"g\",\"expires_in\":9}"))) {
        Some(TokenStep::Continue(search)) => search,
        other => panic!("{:?}", other),
    };
    assert_eq!(token_request(&search, "album", "1"), Action::ReadClock);
    assert_eq!(
        get_access_token(search, Event::Time(50)),
        Some(TokenStep::Done(Ok("e".to_string())))
    );
}

#[test]
fn stale_candidates_are_passed_over() {
    let embed =
        page("{\"props\":{\"pageProps\":{\"state\":{\"accessToken\":\"e\",\"accessTokenExpirationTimestampMs\":1000}}}}");
    let anonymous = "{\"accessToken\":\"a\",\"accessTokenExpirationTimestampMs\":900000}";
    let events = |now: u64| {
        vec![
            Event::Reply(ok(&embed)),
            Event::Reply(ok(anonymous)),
            Event::Reply(ok("no identifier")),
            Event::Time(now),
            Event::Time(now),
        ]
    };
    assert_eq!(run(events(500)), Some(TokenStep::Done(Ok("a".to_string()))));
    assert_eq!(run(events(900)), Some(no_token()));
}

#[test]
fn a_granted_token_counts_from_now() {
    let front = format!("\"clientId\":\"{CLIENT_ID}\"");
    let events = |expires_in: u64| {
        vec![
            Event::Reply(lost()),
            Event::Reply(lost()),
            Event::Reply(ok(&front)),
            Event::Reply(ok(&format!("{{\"access_token\":\"g\",\"expires_in\":{expires_in}}}"))),
            Event::Time(1000),
            Event::Time(1000),
        ]
    };
    assert_eq!(run(events(61)), Some(TokenStep::Done(Ok("g".to_string()))));
    assert_eq!(run(events(60)), Some(no_token()));
    // The time of expiry cannot be written in 64 bits.
    assert_eq!(run(events(u64::MAX)), None);
}

#[test]
fn no_source_has_a_token() {
    let replies = || vec![Event::Reply(lost()), Event::Reply(refused()), Event::Reply(not_text())];
    assert_eq!(run(replies()), Some(no_token()));
}

#[test]
fn refused_credentials_leave_the_other_candidates() {
    let front = format!("\"clientId\":\"{CLIENT_ID}\"");
    assert_eq!(
        run(vec![
            Event::Reply(lost()),
            Event::Reply(ok("{\"accessToken\":\"a\"}")),
            Event::Reply(ok(&front)),
            Event::Reply(refused()),
        ]),
        Some(TokenStep::Done(Ok("a".to_string())))
    );
    assert_eq!(
        run(vec![
            Event::Reply(lost()),
            Event::Reply(lost()),
            Event::Reply(ok(&front)),
            Event::Reply(ok("{\"access_token\":\"g\"}")),
        ]),
        Some(TokenStep::Done(Ok("g".to_string())))
    );
}

#[test]
fn events_that_are_not_waited_for() {
    assert_eq!(get_access_token(TokenSearch::EmbedPage, Event::Time(0)), None);
    assert_eq!(get_access_token(TokenSearch::Anonymous { found: vec![] }, Event::Time(0)), None);
    let choice = || TokenSearch::Choice { candidates: vec![token("a", Some(1))] };
    assert_eq!(get_access_token(choice(), Event::Reply(lost())), None);
    assert_eq!(get_access_token(choice(), Event::Time(u64::MAX - 59)), None);
    assert_eq!(get_access_token(choice(), Event::Time(u64::MAX - 60)), Some(no_token()));
}
