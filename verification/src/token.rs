//! Access tokens: where they are found, how long they are good, and which one is
//! used.

use vstd::prelude::*;
use vstd::utf8::{decode_utf8, valid_utf8};

use crate::exchange::{Action, ActionView, Event, EventView};
use crate::http::{
    anonymous_request, anonymous_token_request, body_text, embed_html, embed_page_request,
    embed_request, fetch_embed_html, front_page_request, front_request, grant_request,
    grant_token_request, is_success, reply_document, reply_text, reply_view, script_file_request,
    script_request, status_ok, success_document, success_text, text_result, Method, Response,
    ResponseView,
};
use crate::json::{opt_string, or_else, Json, JsonValue};
use crate::numeral::{parse_u64, parsed_u64};
use crate::page::{
    between, client_id_in, extract_between, extract_client_id_from_text, extract_next_data_json,
    extract_script_urls, payload_document, script_addresses,
};
use crate::text::{texts, trim, trimmed, views};
use crate::track::text_of;

verus! {

// ── Tokens ───────────────────────────────────────────────────────────────────

/// A token, with the time in seconds at which it expires where that is known.
#[derive(Debug, PartialEq, Eq)]
pub struct AccessToken {
    pub token: String,
    pub expires_at: Option<u64>,
}

/// The mathematical model of a token.
#[verifier::ext_equal]
pub struct TokenView {
    pub token: Seq<char>,
    pub expires_at: Option<u64>,
}

impl View for AccessToken {
    type V = TokenView;

    open spec fn view(&self) -> TokenView {
        TokenView { token: self.token@, expires_at: self.expires_at }
    }
}

/// The model of the token that `o` holds.
pub open spec fn opt_token(o: Option<AccessToken>) -> Option<TokenView> {
    match o {
        Some(t) => Some(t@),
        None => None,
    }
}

/// The models of a list of tokens.
pub open spec fn token_views(tokens: Seq<AccessToken>) -> Seq<TokenView> {
    tokens.map_values(|t: AccessToken| t@)
}

/// The whole seconds in the milliseconds that `o` holds.
pub open spec fn opt_seconds(o: Option<u64>) -> Option<u64> {
    match o {
        Some(ms) => Some((ms / 1000) as u64),
        None => None,
    }
}

/// The whole seconds in the milliseconds that `o` holds.
fn seconds(o: Option<u64>) -> (r: Option<u64>)
    ensures
        r == opt_seconds(o),
{
    match o {
        Some(ms) => Some(ms / 1000),
        None => None,
    }
}

// ── Token in an embed page ───────────────────────────────────────────────────

/// Where embedded data has the state of the page.
pub open spec fn state_path() -> Seq<Seq<char>> {
    seq!["props"@, "pageProps"@, "state"@]
}

/// The token in embedded data, which must not be empty.
pub open spec fn embedded_token(next_data: JsonValue) -> Option<TokenView> {
    match next_data.pointer(state_path()) {
        Some(state) => match text_of(
            or_else(state.get("accessToken"@), state.get("access_token"@)),
        ) {
            Some(token) => if token.len() == 0 {
                None
            } else {
                Some(
                    TokenView {
                        token,
                        expires_at: opt_seconds(
                            state.u64_member("accessTokenExpirationTimestampMs"@),
                        ),
                    },
                )
            },
            None => None,
        },
        None => None,
    }
}

/// The time of expiry that is written in a page.
pub open spec fn written_expiry(html: Seq<char>) -> Option<u64> {
    match between(html, "\"accessTokenExpirationTimestampMs\":"@, ","@) {
        Some(number) => opt_seconds(parsed_u64(trimmed(number))),
        None => None,
    }
}

/// The token that stands, up to a quotation mark, after the first `marker` in a
/// page. Trimmed, it must not be empty.
pub open spec fn token_after(html: Seq<char>, marker: Seq<char>) -> Option<TokenView> {
    match between(html, marker, "\""@) {
        Some(token) => if trimmed(token).len() == 0 {
            None
        } else {
            Some(TokenView { token: trimmed(token), expires_at: written_expiry(html) })
        },
        None => None,
    }
}

/// The token that is written in a page without embedded data.
pub open spec fn written_token(html: Seq<char>) -> Option<TokenView> {
    or_else(
        token_after(html, "\"accessToken\":\""@),
        token_after(html, "accessToken:\\\""@),
    )
}

/// The token in an embed page: where the page has embedded data only that counts,
/// else what is written in the page.
pub open spec fn page_token(html: Seq<char>) -> Option<TokenView> {
    match payload_document(html) {
        Some(next_data) => embedded_token(next_data),
        None => written_token(html),
    }
}

/// The token in embedded data.
pub fn token_from_next_data(next_data: &Json) -> (r: Option<AccessToken>)
    ensures
        opt_token(r) == embedded_token(next_data@),
{
    let path = ["props", "pageProps", "state"];
    assert(views(path@) == state_path());
    let state = match next_data.pointer(path.as_slice()) {
        Some(state) => state,
        None => {
            return None;
        },
    };
    let found = match state.get("accessToken") {
        Some(v) => v.as_str(),
        None => state.text_member("access_token"),
    };
    match found {
        Some(token) => {
            if token.is_empty() {
                return None;
            }
            let expires_at: Option<u64> = seconds(
                state.u64_member("accessTokenExpirationTimestampMs"),
            );
            Some(AccessToken { token: token.to_string(), expires_at })
        },
        None => None,
    }
}

/// The time of expiry that is written in `html`.
fn read_written_expiry(html: &str) -> (r: Option<u64>)
    ensures
        r == written_expiry(html@),
{
    match extract_between(html, "\"accessTokenExpirationTimestampMs\":", ",") {
        Some(number) => seconds(parse_u64(trim(number))),
        None => None,
    }
}

/// The token after the first `marker` in `html`.
fn token_by_marker(html: &str, marker: &str) -> (r: Option<AccessToken>)
    ensures
        opt_token(r) == token_after(html@, marker@),
{
    match extract_between(html, marker, "\"") {
        Some(token) => {
            let t = trim(token);
            if t.is_empty() {
                None
            } else {
                Some(AccessToken { token: t.to_string(), expires_at: read_written_expiry(html) })
            }
        },
        None => None,
    }
}

/// The token that is written in `html`.
pub fn token_from_text(html: &str) -> (r: Option<AccessToken>)
    ensures
        opt_token(r) == written_token(html@),
{
    match token_by_marker(html, "\"accessToken\":\"") {
        Some(token) => Some(token),
        None => token_by_marker(html, "accessToken:\\\""),
    }
}

/// The token in the embed page `html`.
pub fn token_from_embed_html(html: &str) -> (r: Option<AccessToken>)
    ensures
        opt_token(r) == page_token(html@),
{
    match extract_next_data_json(html) {
        Some(next_data) => token_from_next_data(&next_data),
        None => token_from_text(html),
    }
}

/// The token in the reply to the request for an embed page.
pub open spec fn embed_reply_token(reply: Result<ResponseView, Seq<char>>) -> Option<TokenView> {
    match embed_html(reply) {
        Ok(html) => page_token(html),
        Err(_) => None,
    }
}

/// The token in the reply to the request for an embed page.
pub fn token_from_embed(reply: Result<Response, String>) -> (r: Option<AccessToken>)
    ensures
        opt_token(r) == embed_reply_token(reply_view(reply)),
{
    match fetch_embed_html(reply) {
        Ok(html) => token_from_embed_html(html.as_str()),
        Err(_) => None,
    }
}

// ── Token of an anonymous visitor ────────────────────────────────────────────

/// The token that the anonymous endpoint hands out in `data`.
pub open spec fn anonymous_token(data: JsonValue) -> Option<TokenView> {
    match data.text_member("accessToken"@) {
        Some(token) => Some(
            TokenView {
                token,
                expires_at: opt_seconds(data.u64_member("accessTokenExpirationTimestampMs"@)),
            },
        ),
        None => None,
    }
}

/// The token in the reply of the anonymous endpoint.
pub open spec fn anonymous_reply_token(reply: Result<ResponseView, Seq<char>>) -> Option<TokenView> {
    match reply_document(reply) {
        Some(data) => anonymous_token(data),
        None => None,
    }
}

/// The token that the anonymous endpoint hands out in `data`.
pub fn token_from_anonymous_data(data: &Json) -> (r: Option<AccessToken>)
    ensures
        opt_token(r) == anonymous_token(data@),
{
    match data.text_member("accessToken") {
        Some(token) => {
            let expires_at: Option<u64> = seconds(
                data.u64_member("accessTokenExpirationTimestampMs"),
            );
            Some(AccessToken { token: token.to_string(), expires_at })
        },
        None => None,
    }
}

/// The token in the reply of the anonymous endpoint.
pub fn token_from_anonymous_endpoint(reply: Result<Response, String>) -> (r: Option<AccessToken>)
    ensures
        opt_token(r) == anonymous_reply_token(reply_view(reply)),
{
    match success_document(reply) {
        Some(data) => token_from_anonymous_data(&data),
        None => None,
    }
}

// ── Client identifier ────────────────────────────────────────────────────────

/// A search for the client identifier, which waits for a reply.
#[derive(Debug, PartialEq, Eq)]
pub enum ClientIdSearch {
    /// The front page was asked for.
    FrontPage,
    /// The script at `url` was asked for; those in `rest` come after it.
    Script { url: String, rest: Vec<String> },
}

/// The mathematical model of a search for the client identifier.
#[verifier::ext_equal]
pub enum ClientIdSearchView {
    FrontPage,
    Script { url: Seq<char>, rest: Seq<Seq<char>> },
}

impl View for ClientIdSearch {
    type V = ClientIdSearchView;

    open spec fn view(&self) -> ClientIdSearchView {
        match self {
            ClientIdSearch::FrontPage => ClientIdSearchView::FrontPage,
            ClientIdSearch::Script { url, rest } => ClientIdSearchView::Script {
                url: url@,
                rest: texts(rest@),
            },
        }
    }
}

/// Where a search for the client identifier stands after a reply.
#[derive(Debug, PartialEq, Eq)]
pub enum ClientIdStep {
    /// It goes on.
    Continue(ClientIdSearch),
    /// It is over.
    Done(Option<String>),
}

/// The mathematical model of a step of the search.
#[verifier::ext_equal]
pub enum ClientIdStepView {
    Continue(ClientIdSearchView),
    Done(Option<Seq<char>>),
}

impl View for ClientIdStep {
    type V = ClientIdStepView;

    open spec fn view(&self) -> ClientIdStepView {
        match self {
            ClientIdStep::Continue(search) => ClientIdStepView::Continue(search@),
            ClientIdStep::Done(id) => ClientIdStepView::Done(opt_string(*id)),
        }
    }
}

/// The search goes on with the first of `scripts`, and is over where there is
/// none.
pub open spec fn try_scripts(scripts: Seq<Seq<char>>) -> ClientIdStepView {
    if scripts.len() == 0 {
        ClientIdStepView::Done(None)
    } else {
        ClientIdStepView::Continue(
            ClientIdSearchView::Script { url: scripts[0], rest: scripts.skip(1) },
        )
    }
}

/// What a text of the web player leads to: the identifier that stands in it, or
/// the search in `scripts`.
pub open spec fn try_text(text: Seq<char>, scripts: Seq<Seq<char>>) -> ClientIdStepView {
    match client_id_in(text) {
        Some(id) => ClientIdStepView::Done(Some(id)),
        None => try_scripts(scripts),
    }
}

/// Where a search for the client identifier stands after `reply`. A script that
/// the server refuses is passed over; a reply that does not come, or is not text,
/// ends the search.
pub open spec fn client_id_step(
    search: ClientIdSearchView,
    reply: Result<ResponseView, Seq<char>>,
) -> ClientIdStepView {
    match search {
        ClientIdSearchView::FrontPage => match reply_text(reply) {
            Some(html) => try_text(html, script_addresses(html)),
            None => ClientIdStepView::Done(None),
        },
        ClientIdSearchView::Script { url, rest } => match reply {
            Ok(response) => if !is_success(response.status) {
                try_scripts(rest)
            } else {
                match body_text(response.body) {
                    Ok(script) => try_text(script, rest),
                    Err(_) => ClientIdStepView::Done(None),
                }
            },
            Err(_) => ClientIdStepView::Done(None),
        },
    }
}

/// Goes on with the first of `scripts`.
fn next_script(scripts: Vec<String>) -> (r: ClientIdStep)
    ensures
        r@ == try_scripts(texts(scripts@)),
{
    let mut rest: Vec<String> = scripts;
    if rest.len() == 0 {
        ClientIdStep::Done(None)
    } else {
        let url: String = rest.remove(0);
        assert(texts(rest@) == texts(scripts@).skip(1));
        ClientIdStep::Continue(ClientIdSearch::Script { url, rest })
    }
}

/// Takes a search for the client identifier one reply further.
pub fn extract_client_id_from_web(
    search: ClientIdSearch,
    reply: Result<Response, String>,
) -> (r: ClientIdStep)
    ensures
        r@ == client_id_step(search@, reply_view(reply)),
{
    match search {
        ClientIdSearch::FrontPage => match success_text(reply) {
            Some(html) => match extract_client_id_from_text(html.as_str()) {
                Some(id) => ClientIdStep::Done(Some(id)),
                None => next_script(extract_script_urls(html.as_str())),
            },
            None => ClientIdStep::Done(None),
        },
        ClientIdSearch::Script { url: _, rest } => {
            let refused: bool = match &reply {
                Ok(response) => !status_ok(response.status),
                Err(_) => false,
            };
            if refused {
                return next_script(rest);
            }
            match success_text(reply) {
                Some(script) => match extract_client_id_from_text(script.as_str()) {
                    Some(id) => ClientIdStep::Done(Some(id)),
                    None => next_script(rest),
                },
                None => ClientIdStep::Done(None),
            }
        },
    }
}

// ── Token by client credentials ──────────────────────────────────────────────

/// A token as it is granted: with the seconds for which it is good where they are
/// known.
#[derive(Debug, PartialEq, Eq)]
pub struct Grant {
    pub token: String,
    pub expires_in: Option<u64>,
}

/// The mathematical model of a granted token.
#[verifier::ext_equal]
pub struct GrantView {
    pub token: Seq<char>,
    pub expires_in: Option<u64>,
}

impl View for Grant {
    type V = GrantView;

    open spec fn view(&self) -> GrantView {
        GrantView { token: self.token@, expires_in: self.expires_in }
    }
}

/// The model of the granted token that `o` holds.
pub open spec fn opt_grant(o: Option<Grant>) -> Option<GrantView> {
    match o {
        Some(g) => Some(g@),
        None => None,
    }
}

/// The token that is granted in `data`.
pub open spec fn granted(data: JsonValue) -> Option<GrantView> {
    match data.text_member("access_token"@) {
        Some(token) => Some(GrantView { token, expires_in: data.u64_member("expires_in"@) }),
        None => None,
    }
}

/// The token that is granted in a reply.
pub open spec fn reply_grant(reply: Result<ResponseView, Seq<char>>) -> Option<GrantView> {
    match reply_document(reply) {
        Some(data) => granted(data),
        None => None,
    }
}

/// The token that is granted in `data`.
pub fn grant_from_data(data: &Json) -> (r: Option<Grant>)
    ensures
        opt_grant(r) == granted(data@),
{
    match data.text_member("access_token") {
        Some(token) => {
            let expires_in: Option<u64> = data.u64_member("expires_in");
            Some(Grant { token: token.to_string(), expires_in })
        },
        None => None,
    }
}

/// The token that is granted in the reply to a request by client credentials.
pub fn token_from_client_credentials(reply: Result<Response, String>) -> (r: Option<Grant>)
    ensures
        opt_grant(r) == reply_grant(reply_view(reply)),
{
    match success_document(reply) {
        Some(data) => grant_from_data(&data),
        None => None,
    }
}

// ── Validity ─────────────────────────────────────────────────────────────────

/// A token that expires at the given time is good at `now`, and for a minute
/// more. One of which no time is known is good.
pub open spec fn still_valid(expires_at: Option<u64>, now: nat) -> bool {
    match expires_at {
        Some(exp) => now + 60 < exp,
        None => true,
    }
}

/// Whether a token that expires at the given time is still good at `now`.
pub fn is_token_still_valid(expires_at: Option<u64>, now: u64) -> (r: bool)
    requires
        expires_at is Some ==> now + 60 <= u64::MAX,
    ensures
        r == still_valid(expires_at, now as nat),
{
    match expires_at {
        Some(exp) => now + 60 < exp,
        None => true,
    }
}

/// A token that is good at some time was good at any time before.
pub proof fn law_valid_before(expires_at: Option<u64>, earlier: nat, later: nat)
    requires
        earlier <= later,
        still_valid(expires_at, later),
    ensures
        still_valid(expires_at, earlier),
{
}

// ── Which token ──────────────────────────────────────────────────────────────

/// A search for a token, which waits for an event. `found` holds the candidates
/// so far, the preferred ones first.
#[derive(Debug, PartialEq, Eq)]
pub enum TokenSearch {
    /// The embed page was asked for.
    EmbedPage,
    /// The anonymous endpoint was asked.
    Anonymous { found: Vec<AccessToken> },
    /// The client identifier is searched.
    ClientId { found: Vec<AccessToken>, search: ClientIdSearch },
    /// A token was asked for by client credentials.
    Credentials { found: Vec<AccessToken>, client_id: String },
    /// A token was granted for `expires_in` seconds from now on.
    Granted { found: Vec<AccessToken>, token: String, expires_in: u64 },
    /// The first of the candidates is good or not, as the time has it.
    Choice { candidates: Vec<AccessToken> },
}

/// The mathematical model of a search for a token.
#[verifier::ext_equal]
pub enum TokenSearchView {
    EmbedPage,
    Anonymous { found: Seq<TokenView> },
    ClientId { found: Seq<TokenView>, search: ClientIdSearchView },
    Credentials { found: Seq<TokenView>, client_id: Seq<char> },
    Granted { found: Seq<TokenView>, token: Seq<char>, expires_in: u64 },
    Choice { candidates: Seq<TokenView> },
}

impl View for TokenSearch {
    type V = TokenSearchView;

    open spec fn view(&self) -> TokenSearchView {
        match self {
            TokenSearch::EmbedPage => TokenSearchView::EmbedPage,
            TokenSearch::Anonymous { found } => TokenSearchView::Anonymous {
                found: token_views(found@),
            },
            TokenSearch::ClientId { found, search } => TokenSearchView::ClientId {
                found: token_views(found@),
                search: search@,
            },
            TokenSearch::Credentials { found, client_id } => TokenSearchView::Credentials {
                found: token_views(found@),
                client_id: client_id@,
            },
            TokenSearch::Granted { found, token, expires_in } => TokenSearchView::Granted {
                found: token_views(found@),
                token: token@,
                expires_in: *expires_in,
            },
            TokenSearch::Choice { candidates } => TokenSearchView::Choice {
                candidates: token_views(candidates@),
            },
        }
    }
}

/// Where a search for a token stands after an event.
#[derive(Debug, PartialEq, Eq)]
pub enum TokenStep {
    /// It goes on.
    Continue(TokenSearch),
    /// It is over, with a token or with the wording of why there is none.
    Done(Result<String, String>),
}

/// The mathematical model of a step of the search.
#[verifier::ext_equal]
pub enum TokenStepView {
    Continue(TokenSearchView),
    Done(Result<Seq<char>, Seq<char>>),
}

impl View for TokenStep {
    type V = TokenStepView;

    open spec fn view(&self) -> TokenStepView {
        match self {
            TokenStep::Continue(search) => TokenStepView::Continue(search@),
            TokenStep::Done(r) => TokenStepView::Done(text_result(*r)),
        }
    }
}

/// The wording where no candidate is good.
pub open spec fn no_token() -> Seq<char> {
    "Could not obtain Spotify access token by any available method"@
}

/// `found` with the token that `o` holds behind it.
pub open spec fn with_candidate(found: Seq<TokenView>, o: Option<TokenView>) -> Seq<TokenView> {
    match o {
        Some(t) => found.push(t),
        None => found,
    }
}

/// What becomes of candidates before the time is known: a first one without a time
/// of expiry is taken, and without candidates there is no token.
pub open spec fn settle(candidates: Seq<TokenView>) -> TokenStepView {
    if candidates.len() == 0 {
        TokenStepView::Done(Err(no_token()))
    } else if candidates[0].expires_at is None {
        TokenStepView::Done(Ok(candidates[0].token))
    } else {
        TokenStepView::Continue(TokenSearchView::Choice { candidates })
    }
}

/// What becomes of candidates at the time `now`: the first one is taken if it is
/// good, else it is dropped.
pub open spec fn settle_at(candidates: Seq<TokenView>, now: nat) -> TokenStepView {
    if candidates.len() == 0 {
        settle(candidates)
    } else if still_valid(candidates[0].expires_at, now) {
        TokenStepView::Done(Ok(candidates[0].token))
    } else {
        settle(candidates.skip(1))
    }
}

/// Where a search for a token stands after a step of its search for the client
/// identifier.
pub open spec fn after_client_id(found: Seq<TokenView>, step: ClientIdStepView) -> TokenStepView {
    match step {
        ClientIdStepView::Continue(search) => TokenStepView::Continue(
            TokenSearchView::ClientId { found, search },
        ),
        ClientIdStepView::Done(Some(client_id)) => TokenStepView::Continue(
            TokenSearchView::Credentials { found, client_id },
        ),
        ClientIdStepView::Done(None) => settle(found),
    }
}

/// Where a search for a token stands once the grant of a token was answered.
pub open spec fn after_grant(found: Seq<TokenView>, grant: Option<GrantView>) -> TokenStepView {
    match grant {
        Some(g) => match g.expires_in {
            Some(expires_in) => TokenStepView::Continue(
                TokenSearchView::Granted { found, token: g.token, expires_in },
            ),
            None => settle(found.push(TokenView { token: g.token, expires_at: None })),
        },
        None => settle(found),
    }
}

/// Where a search for a token stands after `event`. `None` where the search does
/// not wait for such an event, or where a time cannot be written in 64 bits.
pub open spec fn token_step(search: TokenSearchView, event: EventView) -> Option<TokenStepView> {
    match (search, event) {
        (TokenSearchView::EmbedPage, EventView::Reply(reply)) => Some(
            TokenStepView::Continue(
                TokenSearchView::Anonymous {
                    found: with_candidate(Seq::empty(), embed_reply_token(reply)),
                },
            ),
        ),
        (TokenSearchView::Anonymous { found }, EventView::Reply(reply)) => Some(
            TokenStepView::Continue(
                TokenSearchView::ClientId {
                    found: with_candidate(found, anonymous_reply_token(reply)),
                    search: ClientIdSearchView::FrontPage,
                },
            ),
        ),
        (TokenSearchView::ClientId { found, search }, EventView::Reply(reply)) => Some(
            after_client_id(found, client_id_step(search, reply)),
        ),
        (TokenSearchView::Credentials { found, client_id }, EventView::Reply(reply)) => Some(
            after_grant(found, reply_grant(reply)),
        ),
        (TokenSearchView::Granted { found, token, expires_in }, EventView::Time(now)) => if now
            + expires_in <= u64::MAX {
            Some(
                settle(
                    found.push(TokenView { token, expires_at: Some((now + expires_in) as u64) }),
                ),
            )
        } else {
            None
        },
        (TokenSearchView::Choice { candidates }, EventView::Time(now)) => if now + 60 <= u64::MAX {
            Some(settle_at(candidates, now as nat))
        } else {
            None
        },
        _ => None,
    }
}

/// What a search for a token, for the collection of the given kind and identifier,
/// waits for.
pub open spec fn token_action(
    search: TokenSearchView,
    kind: Seq<char>,
    id: Seq<char>,
) -> ActionView {
    match search {
        TokenSearchView::EmbedPage => ActionView::Fetch(embed_page_request(kind, id)),
        TokenSearchView::Anonymous { found } => ActionView::Fetch(anonymous_token_request()),
        TokenSearchView::ClientId { found, search } => match search {
            ClientIdSearchView::FrontPage => ActionView::Fetch(front_page_request()),
            ClientIdSearchView::Script { url, rest } => ActionView::Fetch(script_file_request(url)),
        },
        TokenSearchView::Credentials { found, client_id } => ActionView::Fetch(
            grant_token_request(client_id),
        ),
        TokenSearchView::Granted { found, token, expires_in } => ActionView::ReadClock,
        TokenSearchView::Choice { candidates } => ActionView::ReadClock,
    }
}

/// `found` with the token that `o` holds behind it.
fn push_candidate(found: Vec<AccessToken>, o: Option<AccessToken>) -> (r: Vec<AccessToken>)
    ensures
        token_views(r@) == with_candidate(token_views(found@), opt_token(o)),
{
    let mut out: Vec<AccessToken> = found;
    if let Some(t) = o {
        out.push(t);
        assert(token_views(out@) == token_views(found@).push(t@));
    }
    out
}

/// Takes the first candidate if it has no time of expiry.
fn settle_candidates(candidates: Vec<AccessToken>) -> (r: TokenStep)
    ensures
        r@ == settle(token_views(candidates@)),
{
    let mut rest: Vec<AccessToken> = candidates;
    if rest.len() == 0 {
        return TokenStep::Done(
            Err("Could not obtain Spotify access token by any available method".to_string()),
        );
    }
    if rest[0].expires_at.is_none() {
        let first: AccessToken = rest.remove(0);
        TokenStep::Done(Ok(first.token))
    } else {
        TokenStep::Continue(TokenSearch::Choice { candidates: rest })
    }
}

/// Takes the first candidate if it is good at `now`, and drops it if not.
pub fn choose_token(candidates: Vec<AccessToken>, now: u64) -> (r: TokenStep)
    requires
        now + 60 <= u64::MAX,
    ensures
        r@ == settle_at(token_views(candidates@), now as nat),
{
    let mut rest: Vec<AccessToken> = candidates;
    if rest.len() == 0 {
        return settle_candidates(rest);
    }
    let first: AccessToken = rest.remove(0);
    assert(token_views(rest@) == token_views(candidates@).skip(1));
    if is_token_still_valid(first.expires_at, now) {
        TokenStep::Done(Ok(first.token))
    } else {
        settle_candidates(rest)
    }
}

/// The model of the step that `o` holds.
pub open spec fn opt_token_step(o: Option<TokenStep>) -> Option<TokenStepView> {
    match o {
        Some(step) => Some(step@),
        None => None,
    }
}

/// Takes a search for a token one event further. `None` where the search does not
/// wait for such an event, or where a time cannot be written in 64 bits.
pub fn get_access_token(search: TokenSearch, event: Event) -> (r: Option<TokenStep>)
    ensures
        opt_token_step(r) == token_step(search@, event@),
{
    match (search, event) {
        (TokenSearch::EmbedPage, Event::Reply(reply)) => {
            let none: Vec<AccessToken> = Vec::new();
            assert(token_views(none@) == Seq::<TokenView>::empty());
            let found = push_candidate(none, token_from_embed(reply));
            Some(TokenStep::Continue(TokenSearch::Anonymous { found }))
        },
        (TokenSearch::Anonymous { found }, Event::Reply(reply)) => {
            let found = push_candidate(found, token_from_anonymous_endpoint(reply));
            Some(
                TokenStep::Continue(
                    TokenSearch::ClientId { found, search: ClientIdSearch::FrontPage },
                ),
            )
        },
        (TokenSearch::ClientId { found, search }, Event::Reply(reply)) => {
            match extract_client_id_from_web(search, reply) {
                ClientIdStep::Continue(search) => Some(
                    TokenStep::Continue(TokenSearch::ClientId { found, search }),
                ),
                ClientIdStep::Done(Some(client_id)) => Some(
                    TokenStep::Continue(TokenSearch::Credentials { found, client_id }),
                ),
                ClientIdStep::Done(None) => Some(settle_candidates(found)),
            }
        },
        (TokenSearch::Credentials { found, client_id: _ }, Event::Reply(reply)) => {
            match token_from_client_credentials(reply) {
                Some(grant) => match grant.expires_in {
                    Some(expires_in) => Some(
                        TokenStep::Continue(
                            TokenSearch::Granted { found, token: grant.token, expires_in },
                        ),
                    ),
                    None => {
                        let token = AccessToken { token: grant.token, expires_at: None };
                        Some(settle_candidates(push_candidate(found, Some(token))))
                    },
                },
                None => Some(settle_candidates(found)),
            }
        },
        (TokenSearch::Granted { found, token, expires_in }, Event::Time(now)) => {
            if expires_in <= u64::MAX - now {
                let token = AccessToken { token, expires_at: Some(now + expires_in) };
                Some(settle_candidates(push_candidate(found, Some(token))))
            } else {
                None
            }
        },
        (TokenSearch::Choice { candidates }, Event::Time(now)) => {
            if now <= u64::MAX - 60 {
                Some(choose_token(candidates, now))
            } else {
                None
            }
        },
        _ => None,
    }
}

/// What `search`, for the collection of the given kind and identifier, waits for.
pub fn token_request(search: &TokenSearch, kind: &str, id: &str) -> (r: Action)
    ensures
        r@ == token_action(search@, kind@, id@),
{
    match search {
        TokenSearch::EmbedPage => Action::Fetch(embed_request(kind, id)),
        TokenSearch::Anonymous { found: _ } => Action::Fetch(anonymous_request()),
        TokenSearch::ClientId { found: _, search } => match search {
            ClientIdSearch::FrontPage => Action::Fetch(front_request()),
            ClientIdSearch::Script { url, rest: _ } => Action::Fetch(script_request(url.as_str())),
        },
        TokenSearch::Credentials { found: _, client_id } => Action::Fetch(
            grant_request(client_id.as_str()),
        ),
        TokenSearch::Granted { found: _, token: _, expires_in: _ } => Action::ReadClock,
        TokenSearch::Choice { candidates: _ } => Action::ReadClock,
    }
}

// ── Laws ─────────────────────────────────────────────────────────────────────

/// `expires_at` is the time in whole seconds of the timestamp `ms` in milliseconds.
pub open spec fn expires_with(expires_at: Option<u64>, ms: u64) -> bool {
    expires_at matches Some(e) && 1000 * e <= ms < 1000 * e + 1000
}

/// A token in embedded data is the text that the state has as `accessToken`, or as
/// `access_token` where there is no `accessToken`, unless it is empty. It expires at the
/// second of its timestamp, and has no time of expiry where there is no timestamp.
#[verifier::spinoff_prover]
#[verifier::rlimit(40)]
pub proof fn law_embedded_token(next_data: JsonValue)
    ensures
        match next_data.pointer(seq!["props"@, "pageProps"@, "state"@]) {
            Some(state) => {
                let found = match state.get("accessToken"@) {
                    Some(v) => Some(v),
                    None => state.get("access_token"@),
                };
                match found {
                    Some(JsonValue::Text(token)) => {
                        &&& token.len() == 0 ==> embedded_token(next_data) is None
                        &&& token.len() > 0 ==> {
                            &&& embedded_token(next_data) matches Some(t)
                            &&& t.token == token
                            &&& match state.get("accessTokenExpirationTimestampMs"@) {
                                Some(JsonValue::Number(Some(ms))) => expires_with(
                                    t.expires_at,
                                    ms,
                                ),
                                _ => t.expires_at is None,
                            }
                        }
                    },
                    _ => embedded_token(next_data) is None,
                }
            },
            None => embedded_token(next_data) is None,
        },
{
}

/// The token of the anonymous endpoint is the text that its answer has as `accessToken`.
/// It expires at the second of its timestamp.
pub proof fn law_anonymous_token(data: JsonValue)
    ensures
        match data.get("accessToken"@) {
            Some(JsonValue::Text(token)) => {
                &&& anonymous_token(data) matches Some(t)
                &&& t.token == token
                &&& match data.get("accessTokenExpirationTimestampMs"@) {
                    Some(JsonValue::Number(Some(ms))) => expires_with(t.expires_at, ms),
                    _ => t.expires_at is None,
                }
            },
            _ => anonymous_token(data) is None,
        },
{
}

/// A token that is granted is the text that the answer has as `access_token`, and is good
/// for as many seconds as the answer says.
pub proof fn law_granted_token(data: JsonValue)
    ensures
        match data.get("access_token"@) {
            Some(JsonValue::Text(token)) => {
                &&& granted(data) matches Some(g)
                &&& g.token == token
                &&& g.expires_in == match data.get("expires_in"@) {
                    Some(JsonValue::Number(seconds)) => seconds,
                    _ => None,
                }
            },
            _ => granted(data) is None,
        },
{
}

/// A token that is written in a page is what stands behind the first of two spellings of
/// its name that leads to something that is not blank. It expires at the second of the
/// timestamp that is written in the page, if one is.
pub proof fn law_written_token(html: Seq<char>)
    ensures
        ({
            let first = between(html, "\"accessToken\":\""@, "\""@);
            let second = between(html, "accessToken:\\\""@, "\""@);
            let chosen = if first is Some && trimmed(first->0).len() > 0 {
                first
            } else {
                second
            };
            if chosen is Some && trimmed(chosen->0).len() > 0 {
                &&& written_token(html) matches Some(t)
                &&& t.token == trimmed(chosen->0)
                &&& match between(html, "\"accessTokenExpirationTimestampMs\":"@, ","@) {
                    Some(number) => match parsed_u64(trimmed(number)) {
                        Some(ms) => expires_with(t.expires_at, ms),
                        None => t.expires_at is None,
                    },
                    None => t.expires_at is None,
                }
            } else {
                written_token(html) is None
            }
        }),
{
}

/// Embedded data that can be read decides alone whether a page has a token, and what is
/// written in the page counts only where there is none.
pub proof fn law_page_token(html: Seq<char>)
    ensures
        payload_document(html) matches Some(next_data) ==> page_token(html) == embedded_token(
            next_data,
        ),
        payload_document(html) is None ==> page_token(html) == written_token(html),
{
}

/// A reply yields the token of what it holds, and none where it holds nothing.
pub proof fn law_reply_tokens(reply: Result<ResponseView, Seq<char>>)
    ensures
        embed_html(reply) matches Ok(html) ==> embed_reply_token(reply) == page_token(html),
        embed_html(reply) is Err ==> embed_reply_token(reply) is None,
        reply_document(reply) matches Some(data) ==> {
            &&& anonymous_reply_token(reply) == anonymous_token(data)
            &&& reply_grant(reply) == granted(data)
        },
        reply_document(reply) is None ==> {
            &&& anonymous_reply_token(reply) is None
            &&& reply_grant(reply) is None
        },
{
}

/// A token is good exactly while more than a minute is left of its time, and always where
/// it has none.
pub proof fn law_token_is_good(expires_at: Option<u64>, now: nat, ms: u64)
    ensures
        expires_at matches Some(e) ==> (still_valid(expires_at, now) <==> now + 61 <= e),
        expires_at is None ==> still_valid(expires_at, now),
        expires_with(expires_at, ms) ==> (still_valid(expires_at, now) <==> ms >= 1000 * (now
            + 61)),
{
}

/// The client identifier in the front page ends the search for it, and else the scripts of
/// the page are asked for in their order. A front page that does not come, or is not text,
/// ends the search with nothing.
pub proof fn law_search_on_front_page(reply: Result<ResponseView, Seq<char>>)
    ensures
        match reply_text(reply) {
            Some(html) => match client_id_in(html) {
                Some(id) => client_id_step(ClientIdSearchView::FrontPage, reply)
                    == ClientIdStepView::Done(Some(id)),
                None => {
                    let scripts = script_addresses(html);
                    if scripts.len() == 0 {
                        client_id_step(ClientIdSearchView::FrontPage, reply)
                            == ClientIdStepView::Done(None)
                    } else {
                        &&& client_id_step(
                            ClientIdSearchView::FrontPage,
                            reply,
                        ) matches ClientIdStepView::Continue(ClientIdSearchView::Script { url, rest })
                        &&& seq![url] + rest == scripts
                    }
                },
            },
            None => client_id_step(ClientIdSearchView::FrontPage, reply) == ClientIdStepView::Done(
                None,
            ),
        },
{
    if let Some(html) = reply_text(reply) {
        let scripts = script_addresses(html);
        if scripts.len() > 0 {
            assert(seq![scripts[0]] + scripts.skip(1) =~= scripts);
        }
    }
}

/// The client identifier in a script ends the search for it. A script without one, or one
/// that the server refuses, leads to the next script, and to nothing where it is the last.
/// A script that does not come, or is not text, ends the search with nothing.
#[verifier::spinoff_prover]
#[verifier::rlimit(40)]
pub proof fn law_search_in_script(
    url: Seq<char>,
    next: Seq<char>,
    rest: Seq<Seq<char>>,
    response: ResponseView,
    message: Seq<char>,
)
    ensures
        ({
            let last = ClientIdSearchView::Script { url, rest: Seq::empty() };
            let more = ClientIdSearchView::Script { url, rest: seq![next] + rest };
            let here = Ok::<ResponseView, Seq<char>>(response);
            let gone_on = ClientIdStepView::Continue(
                ClientIdSearchView::Script { url: next, rest },
            );
            let refused = !(200 <= response.status <= 299);
            let is_text = valid_utf8(response.body);
            let found = client_id_in(decode_utf8(response.body));
            &&& refused || (is_text && found is None) ==> {
                &&& client_id_step(more, here) == gone_on
                &&& client_id_step(last, here) == ClientIdStepView::Done(None)
            }
            &&& !refused && is_text && found is Some ==> {
                &&& client_id_step(more, here) == ClientIdStepView::Done(found)
                &&& client_id_step(last, here) == ClientIdStepView::Done(found)
            }
            &&& !refused && !is_text ==> {
                &&& client_id_step(more, here) == ClientIdStepView::Done(None)
                &&& client_id_step(last, here) == ClientIdStepView::Done(None)
            }
            &&& client_id_step(more, Err(message)) == ClientIdStepView::Done(None)
            &&& client_id_step(last, Err(message)) == ClientIdStepView::Done(None)
        }),
{
    assert((seq![next] + rest).skip(1) =~= rest);
}

/// While a token is searched, the embed page of the collection, the anonymous endpoint,
/// the front page, a script and the grant of a token are asked for where it is their turn,
/// and the clock is read once candidates are there.
#[verifier::spinoff_prover]
#[verifier::rlimit(40)]
pub proof fn law_token_requests(
    kind: Seq<char>,
    id: Seq<char>,
    found: Seq<TokenView>,
    url: Seq<char>,
    rest: Seq<Seq<char>>,
    client_id: Seq<char>,
    expires_in: u64,
)
    ensures
        token_action(TokenSearchView::EmbedPage, kind, id) matches ActionView::Fetch(r) && r.url
            == "https://open.spotify.com/embed/"@ + kind + "/"@ + id && r.method == Method::Get,
        token_action(TokenSearchView::Anonymous { found }, kind, id) matches ActionView::Fetch(r)
            && r.url
            == "https://open.spotify.com/get_access_token?reason=transport&productType=web_player"@
            && r.method == Method::Get,
        token_action(
            TokenSearchView::ClientId { found, search: ClientIdSearchView::FrontPage },
            kind,
            id,
        ) matches ActionView::Fetch(r) && r.url == "https://open.spotify.com/"@ && r.method
            == Method::Get,
        token_action(
            TokenSearchView::ClientId { found, search: ClientIdSearchView::Script { url, rest } },
            kind,
            id,
        ) matches ActionView::Fetch(r) && r.url == url && r.method == Method::Get,
        token_action(
            TokenSearchView::Credentials { found, client_id },
            kind,
            id,
        ) matches ActionView::Fetch(r) && r.url == "https://accounts.spotify.com/api/token"@
            && r.method == Method::Post && r.body == Some(
            "grant_type=client_credentials&client_id="@ + client_id,
        ),
        token_action(TokenSearchView::Granted { found, token: url, expires_in }, kind, id)
            == ActionView::ReadClock,
        token_action(TokenSearchView::Choice { candidates: found }, kind, id)
            == ActionView::ReadClock,
{
}

/// The requests of a token search depend on where it is alone, and carry the headers, the
/// body and the patience of their sort.
pub proof fn law_token_request_sorts(
    kind: Seq<char>,
    id: Seq<char>,
    found: Seq<TokenView>,
    url: Seq<char>,
    rest: Seq<Seq<char>>,
    client_id: Seq<char>,
)
    ensures
        token_action(TokenSearchView::EmbedPage, kind, id) == ActionView::Fetch(
            embed_page_request(kind, id),
        ),
        token_action(TokenSearchView::Anonymous { found }, kind, id) == ActionView::Fetch(
            anonymous_token_request(),
        ),
        token_action(
            TokenSearchView::ClientId { found, search: ClientIdSearchView::FrontPage },
            kind,
            id,
        ) == ActionView::Fetch(front_page_request()),
        token_action(
            TokenSearchView::ClientId { found, search: ClientIdSearchView::Script { url, rest } },
            kind,
            id,
        ) == ActionView::Fetch(script_file_request(url)),
        token_action(TokenSearchView::Credentials { found, client_id }, kind, id)
            == ActionView::Fetch(grant_token_request(client_id)),
{
}

/// The models of a token, of a grant and of a list of tokens have what they have.
pub proof fn law_token_model(
    t: AccessToken,
    g: Grant,
    tokens: Seq<AccessToken>,
    step: TokenStep,
    search: ClientIdSearch,
)
    ensures
        t@.token == t.token@ && t@.expires_at == t.expires_at,
        opt_token(Some(t)) == Some(t@) && opt_token(None) is None,
        g@.token == g.token@ && g@.expires_in == g.expires_in,
        opt_grant(Some(g)) == Some(g@) && opt_grant(None) is None,
        token_views(tokens).len() == tokens.len(),
        forall|i: int| 0 <= i < tokens.len() ==> #[trigger] token_views(tokens)[i] == tokens[i]@,
        opt_token_step(Some(step)) == Some(step@) && opt_token_step(None) is None,
        step matches TokenStep::Done(Ok(token)) ==> step@ == TokenStepView::Done(Ok(token@)),
        step matches TokenStep::Done(Err(message)) ==> step@ == TokenStepView::Done(Err(message@)),
        step matches TokenStep::Continue(s) ==> step@ == TokenStepView::Continue(s@),
        search matches ClientIdSearch::Script { url, rest } ==> search@
            == (ClientIdSearchView::Script { url: url@, rest: texts(rest@) }),
        search is FrontPage ==> search@ == ClientIdSearchView::FrontPage,
{
}

} // verus!
