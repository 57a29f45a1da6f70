//! The import of a collection, step by step: a token is searched, the API is asked
//! with it, and where either fails the embed page takes the place of the API.

use vstd::prelude::*;

use crate::collection::{
    api_album, api_playlist, embed_album, embed_playlist, first_image, get_album_info_via_api,
    get_album_info_via_embed, get_playlist_info_via_api, get_playlist_info_via_embed, image_path,
};
use crate::exchange::{Action, ActionView, Event, EventView};
use crate::http::{
    album_info_path, album_page_path, album_path, album_tracks_path, api_document, api_get,
    api_path_request, api_request, embed_html, embed_page_request, embed_request, fetch_embed_html,
    joined, json_result, playlist_info_path, playlist_page_path, playlist_path,
    playlist_tracks_path, reply_view, Response, ResponseView,
};
use crate::json::{opt_string, owned, Json, JsonValue};
use crate::link::{link_target, parse_url, SpotifyKind};
use crate::listing::{
    album_items_ok, album_page_tracks, embed_album_tracks, embed_playlist_tracks,
    get_album_tracks_via_embed, get_playlist_tracks_via_embed, items_take_album, next_offset,
    next_offset_ok, offset_fits, playlist_page_tracks, read_album_page, read_playlist_page,
};
use crate::model::{track_views, CollectionSummary, SummaryView, TrackItem, TrackView, Tracks};
use crate::page::{extract_next_data_json, payload_document};
use crate::text::views;
use crate::token::{
    get_access_token, token_action, token_request, token_step, TokenSearch, TokenSearchView,
    TokenStep, TokenStepView,
};
use crate::track::text_or_empty;

verus! {

// ── Goals and outcomes ───────────────────────────────────────────────────────

/// What an import is after.
#[derive(Clone, Copy, Debug, PartialEq, Eq, Structural)]
pub enum Goal {
    Summary,
    Tracks,
}

/// What an import yields.
#[derive(Debug, PartialEq, Eq)]
pub enum Outcome {
    Summary(CollectionSummary),
    Tracks(Tracks),
}

/// The mathematical model of what an import yields.
#[verifier::ext_equal]
pub enum OutcomeView {
    Summary(SummaryView),
    Tracks(Seq<TrackView>),
}

impl View for Outcome {
    type V = OutcomeView;

    open spec fn view(&self) -> OutcomeView {
        match self {
            Outcome::Summary(summary) => OutcomeView::Summary(summary@),
            Outcome::Tracks(tracks) => OutcomeView::Tracks(tracks@),
        }
    }
}

/// The outcome, or the wording of the error, that `r` holds.
pub open spec fn outcome_result(r: Result<Outcome, String>) -> Result<OutcomeView, Seq<char>> {
    match r {
        Ok(outcome) => Ok(outcome@),
        Err(message) => Err(message@),
    }
}

// ── The embed page in the place of the API ───────────────────────────────────

/// Where embedded data has the collection.
pub open spec fn entity_path() -> Seq<Seq<char>> {
    seq!["props"@, "pageProps"@, "state"@, "data"@, "entity"@]
}

/// The collection in embedded data, or the wording of why there is none.
pub open spec fn embedded_entity(next_data: JsonValue) -> Result<JsonValue, Seq<char>> {
    match next_data.pointer(entity_path()) {
        Some(entity) => Ok(entity),
        None => Err("Embed entity not found in __NEXT_DATA__ payload"@),
    }
}

/// The collection in the reply to the request for an embed page, or the wording of
/// why there is none.
pub open spec fn embed_reply_entity(reply: Result<ResponseView, Seq<char>>) -> Result<
    JsonValue,
    Seq<char>,
> {
    match embed_html(reply) {
        Ok(html) => match payload_document(html) {
            Some(next_data) => embedded_entity(next_data),
            None => Err("Could not parse embed __NEXT_DATA__ payload"@),
        },
        Err(message) => Err(message),
    }
}

/// What the collection `entity` in embedded data yields.
pub open spec fn entity_outcome(kind: SpotifyKind, goal: Goal, entity: JsonValue) -> OutcomeView {
    match (goal, kind) {
        (Goal::Summary, SpotifyKind::Playlist) => OutcomeView::Summary(embed_playlist(entity)),
        (Goal::Summary, SpotifyKind::Album) => OutcomeView::Summary(embed_album(entity)),
        (Goal::Tracks, SpotifyKind::Playlist) => OutcomeView::Tracks(embed_playlist_tracks(entity)),
        (Goal::Tracks, SpotifyKind::Album) => OutcomeView::Tracks(embed_album_tracks(entity)),
    }
}

/// The wording where both the API and the embed page failed.
pub open spec fn both_failed(api_error: Seq<char>, embed_error: Seq<char>) -> Seq<char> {
    "API failed: "@ + api_error + "; embed fallback failed: "@ + embed_error
}

/// What the reply to the request for an embed page yields after the API failed.
pub open spec fn embed_outcome(
    kind: SpotifyKind,
    goal: Goal,
    api_error: Seq<char>,
    reply: Result<ResponseView, Seq<char>>,
) -> Result<OutcomeView, Seq<char>> {
    match embed_reply_entity(reply) {
        Ok(entity) => Ok(entity_outcome(kind, goal, entity)),
        Err(embed_error) => Err(both_failed(api_error, embed_error)),
    }
}

/// The collection in embedded data.
pub fn entity_from_next_data(next_data: &Json) -> (r: Result<Json, String>)
    ensures
        json_result(r) == embedded_entity(next_data@),
{
    let path = ["props", "pageProps", "state", "data", "entity"];
    assert(views(path@) == entity_path());
    match next_data.pointer(path.as_slice()) {
        Some(entity) => Ok(entity.clone()),
        None => Err("Embed entity not found in __NEXT_DATA__ payload".to_string()),
    }
}

/// The collection in the reply to the request for an embed page.
pub fn entity_from_embed(reply: Result<Response, String>) -> (r: Result<Json, String>)
    ensures
        json_result(r) == embed_reply_entity(reply_view(reply)),
{
    match fetch_embed_html(reply) {
        Ok(html) => match extract_next_data_json(html.as_str()) {
            Some(next_data) => entity_from_next_data(&next_data),
            None => Err("Could not parse embed __NEXT_DATA__ payload".to_string()),
        },
        Err(message) => Err(message),
    }
}

/// What the collection `entity` in embedded data yields.
pub fn outcome_from_entity(kind: SpotifyKind, goal: Goal, entity: &Json) -> (r: Outcome)
    ensures
        r@ == entity_outcome(kind, goal, entity@),
{
    match goal {
        Goal::Summary => match kind {
            SpotifyKind::Playlist => Outcome::Summary(get_playlist_info_via_embed(entity)),
            SpotifyKind::Album => Outcome::Summary(get_album_info_via_embed(entity)),
        },
        Goal::Tracks => match kind {
            SpotifyKind::Playlist => Outcome::Tracks(
                Tracks { items: get_playlist_tracks_via_embed(entity) },
            ),
            SpotifyKind::Album => Outcome::Tracks(
                Tracks { items: get_album_tracks_via_embed(entity) },
            ),
        },
    }
}

/// What the reply to the request for an embed page yields after the API failed.
pub fn outcome_from_embed(
    kind: SpotifyKind,
    goal: Goal,
    api_error: &str,
    reply: Result<Response, String>,
) -> (r: Result<Outcome, String>)
    ensures
        outcome_result(r) == embed_outcome(kind, goal, api_error@, reply_view(reply)),
{
    match entity_from_embed(reply) {
        Ok(entity) => Ok(outcome_from_entity(kind, goal, &entity)),
        Err(embed_error) => {
            let mut message: String = joined("API failed: ", api_error);
            message.append("; embed fallback failed: ");
            message.append(embed_error.as_str());
            Err(message)
        },
    }
}

// ── The API ──────────────────────────────────────────────────────────────────

/// An exchange with the API, which waits for a reply.
#[derive(Debug, PartialEq, Eq)]
pub enum ApiFetch {
    /// The description of the collection was asked for.
    Summary { token: String },
    /// The page of a playlist at `offset` was asked for; `tracks` stood on the
    /// pages before.
    PlaylistPage { token: String, offset: u32, tracks: Vec<TrackItem> },
    /// The album was asked for, before its tracks.
    Album { token: String },
    /// The page of an album at `offset` was asked for; `tracks` stood on the pages
    /// before.
    AlbumPage {
        token: String,
        name: String,
        cover: Option<String>,
        offset: u32,
        tracks: Vec<TrackItem>,
    },
}

/// The mathematical model of an exchange with the API.
#[verifier::ext_equal]
pub enum ApiFetchView {
    Summary { token: Seq<char> },
    PlaylistPage { token: Seq<char>, offset: nat, tracks: Seq<TrackView> },
    Album { token: Seq<char> },
    AlbumPage {
        token: Seq<char>,
        name: Seq<char>,
        cover: Option<Seq<char>>,
        offset: nat,
        tracks: Seq<TrackView>,
    },
}

impl View for ApiFetch {
    type V = ApiFetchView;

    open spec fn view(&self) -> ApiFetchView {
        match self {
            ApiFetch::Summary { token } => ApiFetchView::Summary { token: token@ },
            ApiFetch::PlaylistPage { token, offset, tracks } => ApiFetchView::PlaylistPage {
                token: token@,
                offset: *offset as nat,
                tracks: track_views(tracks@),
            },
            ApiFetch::Album { token } => ApiFetchView::Album { token: token@ },
            ApiFetch::AlbumPage { token, name, cover, offset, tracks } => ApiFetchView::AlbumPage {
                token: token@,
                name: name@,
                cover: opt_string(*cover),
                offset: *offset as nat,
                tracks: track_views(tracks@),
            },
        }
    }
}

/// Where an exchange with the API stands after a reply.
#[derive(Debug, PartialEq, Eq)]
pub enum ApiStep {
    /// It goes on.
    Continue(ApiFetch),
    /// It is over.
    Done(Result<Outcome, String>),
}

/// The mathematical model of a step of the exchange.
#[verifier::ext_equal]
pub enum ApiStepView {
    Continue(ApiFetchView),
    Done(Result<OutcomeView, Seq<char>>),
}

impl View for ApiStep {
    type V = ApiStepView;

    open spec fn view(&self) -> ApiStepView {
        match self {
            ApiStep::Continue(fetch) => ApiStepView::Continue(fetch@),
            ApiStep::Done(r) => ApiStepView::Done(outcome_result(*r)),
        }
    }
}

/// The model of the step that `o` holds.
pub open spec fn opt_api_step(o: Option<ApiStep>) -> Option<ApiStepView> {
    match o {
        Some(step) => Some(step@),
        None => None,
    }
}

/// Where an exchange with the API stands after the document `data`.
pub open spec fn api_data_step(
    fetch: ApiFetchView,
    kind: SpotifyKind,
    data: JsonValue,
) -> ApiStepView {
    match fetch {
        ApiFetchView::Summary { token } => ApiStepView::Done(
            Ok(
                OutcomeView::Summary(
                    match kind {
                        SpotifyKind::Playlist => api_playlist(data),
                        SpotifyKind::Album => api_album(data),
                    },
                ),
            ),
        ),
        ApiFetchView::PlaylistPage { token, offset, tracks } => {
            let tracks = tracks + playlist_page_tracks(data);
            match next_offset(data, offset) {
                Some(offset) => ApiStepView::Continue(
                    ApiFetchView::PlaylistPage { token, offset, tracks },
                ),
                None => ApiStepView::Done(Ok(OutcomeView::Tracks(tracks))),
            }
        },
        ApiFetchView::Album { token } => ApiStepView::Continue(
            ApiFetchView::AlbumPage {
                token,
                name: text_or_empty(data.text_member("name"@)),
                cover: data.text_at(image_path()),
                offset: 0,
                tracks: Seq::empty(),
            },
        ),
        ApiFetchView::AlbumPage { token, name, cover, offset, tracks } => {
            let tracks = tracks + album_page_tracks(data, name, cover);
            match next_offset(data, offset) {
                Some(offset) => ApiStepView::Continue(
                    ApiFetchView::AlbumPage { token, name, cover, offset, tracks },
                ),
                None => ApiStepView::Done(Ok(OutcomeView::Tracks(tracks))),
            }
        },
    }
}

/// The document `data` can be worked on: the place of the next page can be written
/// in 32 bits, and every track of an album can be given the album.
pub open spec fn data_fits(fetch: ApiFetchView, data: JsonValue) -> bool {
    match fetch {
        ApiFetchView::Summary { token } => true,
        ApiFetchView::PlaylistPage { token, offset, tracks } => offset_fits(data, offset),
        ApiFetchView::Album { token } => true,
        ApiFetchView::AlbumPage { token, name, cover, offset, tracks } => offset_fits(data, offset)
            && items_take_album(data),
    }
}

/// Where an exchange with the API stands after `reply`. `None` where the document
/// in it cannot be worked on.
pub open spec fn api_step(
    fetch: ApiFetchView,
    kind: SpotifyKind,
    reply: Result<ResponseView, Seq<char>>,
) -> Option<ApiStepView> {
    match api_document(reply) {
        Ok(data) => if data_fits(fetch, data) {
            Some(api_data_step(fetch, kind, data))
        } else {
            None
        },
        Err(message) => Some(ApiStepView::Done(Err(message))),
    }
}

/// Where an exchange with the API begins.
pub open spec fn first_fetch(kind: SpotifyKind, goal: Goal, token: Seq<char>) -> ApiFetchView {
    match (goal, kind) {
        (Goal::Summary, _) => ApiFetchView::Summary { token },
        (Goal::Tracks, SpotifyKind::Playlist) => ApiFetchView::PlaylistPage {
            token,
            offset: 0,
            tracks: Seq::empty(),
        },
        (Goal::Tracks, SpotifyKind::Album) => ApiFetchView::Album { token },
    }
}

/// The path and the token with which an exchange asks the API.
pub open spec fn api_fetch_request(
    fetch: ApiFetchView,
    kind: SpotifyKind,
    id: Seq<char>,
) -> ActionView {
    ActionView::Fetch(
        match fetch {
            ApiFetchView::Summary { token } => match kind {
                SpotifyKind::Playlist => api_path_request(playlist_info_path(id), token),
                SpotifyKind::Album => api_path_request(album_info_path(id), token),
            },
            ApiFetchView::PlaylistPage { token, offset, tracks } => api_path_request(
                playlist_tracks_path(id, offset),
                token,
            ),
            ApiFetchView::Album { token } => api_path_request(album_info_path(id), token),
            ApiFetchView::AlbumPage { token, name, cover, offset, tracks } => api_path_request(
                album_tracks_path(id, offset),
                token,
            ),
        },
    )
}

/// `tracks` with those of the next page behind them.
fn extend_tracks(tracks: Vec<TrackItem>, more: Vec<TrackItem>) -> (r: Vec<TrackItem>)
    ensures
        track_views(r@) == track_views(tracks@) + track_views(more@),
{
    let mut out: Vec<TrackItem> = tracks;
    let mut tail: Vec<TrackItem> = more;
    out.append(&mut tail);
    assert(track_views(out@) == track_views(tracks@) + track_views(more@));
    out
}

/// Takes the listing of a playlist one page further: `data` is the page at
/// `offset`, and `tracks` stood on the pages before.
pub fn get_playlist_tracks_via_api(
    token: String,
    offset: u32,
    tracks: Vec<TrackItem>,
    data: &Json,
) -> (r: ApiStep)
    requires
        offset_fits(data@, offset as nat),
    ensures
        r@ == api_data_step(
            (ApiFetchView::PlaylistPage {
                token: token@,
                offset: offset as nat,
                tracks: track_views(tracks@),
            }),
            SpotifyKind::Playlist,
            data@,
        ),
{
    let page = read_playlist_page(data, offset);
    let all = extend_tracks(tracks, page.tracks);
    match page.next_offset {
        Some(offset) => ApiStep::Continue(ApiFetch::PlaylistPage { token, offset, tracks: all }),
        None => ApiStep::Done(Ok(Outcome::Tracks(Tracks { items: all }))),
    }
}

/// Takes the listing of an album one page further: `data` is the page at `offset`,
/// and `tracks` stood on the pages before.
pub fn get_album_tracks_via_api(
    token: String,
    name: String,
    cover: Option<String>,
    offset: u32,
    tracks: Vec<TrackItem>,
    data: &Json,
) -> (r: ApiStep)
    requires
        offset_fits(data@, offset as nat),
        items_take_album(data@),
    ensures
        r@ == api_data_step(
            (ApiFetchView::AlbumPage {
                token: token@,
                name: name@,
                cover: opt_string(cover),
                offset: offset as nat,
                tracks: track_views(tracks@),
            }),
            SpotifyKind::Album,
            data@,
        ),
{
    let page = read_album_page(data, name.as_str(), &cover, offset);
    let all = extend_tracks(tracks, page.tracks);
    match page.next_offset {
        Some(offset) => ApiStep::Continue(
            ApiFetch::AlbumPage { token, name, cover, offset, tracks: all },
        ),
        None => ApiStep::Done(Ok(Outcome::Tracks(Tracks { items: all }))),
    }
}

/// Takes an exchange with the API one document further.
pub fn advance_with_data(fetch: ApiFetch, kind: SpotifyKind, data: &Json) -> (r: ApiStep)
    requires
        data_fits(fetch@, data@),
    ensures
        r@ == api_data_step(fetch@, kind, data@),
{
    match fetch {
        ApiFetch::Summary { token: _ } => match kind {
            SpotifyKind::Playlist => ApiStep::Done(
                Ok(Outcome::Summary(get_playlist_info_via_api(data))),
            ),
            SpotifyKind::Album => ApiStep::Done(
                Ok(Outcome::Summary(get_album_info_via_api(data))),
            ),
        },
        ApiFetch::PlaylistPage { token, offset, tracks } => get_playlist_tracks_via_api(
            token,
            offset,
            tracks,
            data,
        ),
        ApiFetch::Album { token } => {
            let name: String = match data.text_member("name") {
                Some(name) => name.to_string(),
                None => String::new(),
            };
            let cover: Option<String> = owned(first_image(data));
            let tracks: Vec<TrackItem> = Vec::new();
            assert(track_views(tracks@) == Seq::<TrackView>::empty());
            ApiStep::Continue(ApiFetch::AlbumPage { token, name, cover, offset: 0, tracks })
        },
        ApiFetch::AlbumPage { token, name, cover, offset, tracks } => get_album_tracks_via_api(
            token,
            name,
            cover,
            offset,
            tracks,
            data,
        ),
    }
}

/// Whether the document `data` can be worked on.
fn data_ok(fetch: &ApiFetch, data: &Json) -> (r: bool)
    ensures
        r == data_fits(fetch@, data@),
{
    match fetch {
        ApiFetch::Summary { token: _ } => true,
        ApiFetch::PlaylistPage { token: _, offset, tracks: _ } => next_offset_ok(data, *offset),
        ApiFetch::Album { token: _ } => true,
        ApiFetch::AlbumPage { token: _, name: _, cover: _, offset, tracks: _ } => next_offset_ok(
            data,
            *offset,
        ) && album_items_ok(data),
    }
}

/// Takes an exchange with the API one reply further. `None` where the document in
/// it cannot be worked on.
pub fn advance_with_reply(
    fetch: ApiFetch,
    kind: SpotifyKind,
    reply: Result<Response, String>,
) -> (r: Option<ApiStep>)
    ensures
        opt_api_step(r) == api_step(fetch@, kind, reply_view(reply)),
{
    match api_get(reply) {
        Ok(data) => if data_ok(&fetch, &data) {
            Some(advance_with_data(fetch, kind, &data))
        } else {
            None
        },
        Err(message) => Some(ApiStep::Done(Err(message))),
    }
}

/// Where an exchange with the API begins.
pub fn begin_fetch(kind: SpotifyKind, goal: Goal, token: String) -> (r: ApiFetch)
    ensures
        r@ == first_fetch(kind, goal, token@),
{
    match goal {
        Goal::Summary => ApiFetch::Summary { token },
        Goal::Tracks => match kind {
            SpotifyKind::Playlist => {
                let tracks: Vec<TrackItem> = Vec::new();
                assert(track_views(tracks@) == Seq::<TrackView>::empty());
                ApiFetch::PlaylistPage { token, offset: 0, tracks }
            },
            SpotifyKind::Album => ApiFetch::Album { token },
        },
    }
}

/// What an exchange with the API waits for.
pub fn fetch_request(fetch: &ApiFetch, kind: SpotifyKind, id: &str) -> (r: Action)
    ensures
        r@ == api_fetch_request(fetch@, kind, id@),
{
    match fetch {
        ApiFetch::Summary { token } => match kind {
            SpotifyKind::Playlist => Action::Fetch(
                api_request(playlist_path(id).as_str(), token.as_str()),
            ),
            SpotifyKind::Album => Action::Fetch(
                api_request(album_path(id).as_str(), token.as_str()),
            ),
        },
        ApiFetch::PlaylistPage { token, offset, tracks: _ } => Action::Fetch(
            api_request(playlist_page_path(id, *offset).as_str(), token.as_str()),
        ),
        ApiFetch::Album { token } => Action::Fetch(
            api_request(album_path(id).as_str(), token.as_str()),
        ),
        ApiFetch::AlbumPage { token, name: _, cover: _, offset, tracks: _ } => Action::Fetch(
            api_request(album_page_path(id, *offset).as_str(), token.as_str()),
        ),
    }
}

// ── The import ───────────────────────────────────────────────────────────────

/// What an import is at.
#[derive(Debug, PartialEq, Eq)]
pub enum Phase {
    /// A token is searched.
    Token(TokenSearch),
    /// The API is asked.
    Api(ApiFetch),
    /// The API failed, and the embed page was asked for.
    Embed { api_error: String },
    /// The import is over.
    Done(Result<Outcome, String>),
}

/// The mathematical model of what an import is at.
#[verifier::ext_equal]
pub enum PhaseView {
    Token(TokenSearchView),
    Api(ApiFetchView),
    Embed { api_error: Seq<char> },
    Done(Result<OutcomeView, Seq<char>>),
}

impl View for Phase {
    type V = PhaseView;

    open spec fn view(&self) -> PhaseView {
        match self {
            Phase::Token(search) => PhaseView::Token(search@),
            Phase::Api(fetch) => PhaseView::Api(fetch@),
            Phase::Embed { api_error } => PhaseView::Embed { api_error: api_error@ },
            Phase::Done(r) => PhaseView::Done(outcome_result(*r)),
        }
    }
}

/// The import of a collection.
#[derive(Debug, PartialEq, Eq)]
pub struct Import {
    pub kind: SpotifyKind,
    pub id: String,
    pub goal: Goal,
    pub phase: Phase,
}

/// The mathematical model of an import.
#[verifier::ext_equal]
pub struct ImportView {
    pub kind: SpotifyKind,
    pub id: Seq<char>,
    pub goal: Goal,
    pub phase: PhaseView,
}

impl View for Import {
    type V = ImportView;

    open spec fn view(&self) -> ImportView {
        ImportView { kind: self.kind, id: self.id@, goal: self.goal, phase: self.phase@ }
    }
}

/// What comes after the search for a token.
pub open spec fn after_token(
    kind: SpotifyKind,
    goal: Goal,
    token: Result<Seq<char>, Seq<char>>,
) -> PhaseView {
    match token {
        Ok(token) => PhaseView::Api(first_fetch(kind, goal, token)),
        Err(api_error) => PhaseView::Embed { api_error },
    }
}

/// What comes after a step of the exchange with the API.
pub open spec fn after_api(step: ApiStepView) -> PhaseView {
    match step {
        ApiStepView::Continue(fetch) => PhaseView::Api(fetch),
        ApiStepView::Done(Ok(outcome)) => PhaseView::Done(Ok(outcome)),
        ApiStepView::Done(Err(api_error)) => PhaseView::Embed { api_error },
    }
}

/// What an import is at after `event`. `None` where it does not wait for such an
/// event, or where what the event brings cannot be worked on.
pub open spec fn phase_step(
    kind: SpotifyKind,
    goal: Goal,
    phase: PhaseView,
    event: EventView,
) -> Option<PhaseView> {
    match phase {
        PhaseView::Token(search) => match token_step(search, event) {
            Some(TokenStepView::Continue(search)) => Some(PhaseView::Token(search)),
            Some(TokenStepView::Done(token)) => Some(after_token(kind, goal, token)),
            None => None,
        },
        PhaseView::Api(fetch) => match event {
            EventView::Reply(reply) => match api_step(fetch, kind, reply) {
                Some(step) => Some(after_api(step)),
                None => None,
            },
            EventView::Time(_) => None,
        },
        PhaseView::Embed { api_error } => match event {
            EventView::Reply(reply) => Some(
                PhaseView::Done(embed_outcome(kind, goal, api_error, reply)),
            ),
            EventView::Time(_) => None,
        },
        PhaseView::Done(_) => None,
    }
}

/// Where an import stands after `event`.
pub open spec fn import_step(import: ImportView, event: EventView) -> Option<ImportView> {
    match phase_step(import.kind, import.goal, import.phase, event) {
        Some(phase) => Some(ImportView { phase, ..import }),
        None => None,
    }
}

/// What an import waits for.
pub open spec fn import_action(import: ImportView) -> ActionView {
    match import.phase {
        PhaseView::Token(search) => token_action(search, import.kind.word(), import.id),
        PhaseView::Api(fetch) => api_fetch_request(fetch, import.kind, import.id),
        PhaseView::Embed { api_error } => ActionView::Fetch(
            embed_page_request(import.kind.word(), import.id),
        ),
        PhaseView::Done(_) => ActionView::Finish,
    }
}

/// Where the import of a collection begins.
pub open spec fn begin(kind: SpotifyKind, id: Seq<char>, goal: Goal) -> ImportView {
    ImportView { kind, id, goal, phase: PhaseView::Token(TokenSearchView::EmbedPage) }
}

/// Where the import of what `url` refers to begins, or the wording of why it does
/// not.
pub open spec fn begin_url(url: Seq<char>, goal: Goal) -> Result<ImportView, Seq<char>> {
    match link_target(url) {
        Some((kind, id)) => Ok(begin(kind, id, goal)),
        None => Err("Unsupported URL: "@ + url),
    }
}

/// The import, or the wording of the error, that `r` holds.
pub open spec fn import_result(r: Result<Import, String>) -> Result<ImportView, Seq<char>> {
    match r {
        Ok(import) => Ok(import@),
        Err(message) => Err(message@),
    }
}

/// The model of the import that `o` holds.
pub open spec fn opt_import(o: Option<Import>) -> Option<ImportView> {
    match o {
        Some(import) => Some(import@),
        None => None,
    }
}

impl Import {
    /// Begins the import of what `url` refers to.
    pub fn start(url: &str, goal: Goal) -> (r: Result<Import, String>)
        ensures
            import_result(r) == begin_url(url@, goal),
    {
        match parse_url(url) {
            Some((kind, id)) => Ok(
                Import { kind, id, goal, phase: Phase::Token(TokenSearch::EmbedPage) },
            ),
            None => Err(joined("Unsupported URL: ", url)),
        }
    }

    /// What this import waits for.
    pub fn action(&self) -> (r: Action)
        ensures
            r@ == import_action(self@),
    {
        match &self.phase {
            Phase::Token(search) => token_request(search, self.kind.as_str(), self.id.as_str()),
            Phase::Api(fetch) => fetch_request(fetch, self.kind, self.id.as_str()),
            Phase::Embed { api_error: _ } => Action::Fetch(
                embed_request(self.kind.as_str(), self.id.as_str()),
            ),
            Phase::Done(_) => Action::Finish,
        }
    }

    /// Takes this import one event further. `None` where it does not wait for such
    /// an event, or where what the event brings cannot be worked on.
    pub fn step(self, event: Event) -> (r: Option<Import>)
        ensures
            opt_import(r) == import_step(self@, event@),
    {
        let Import { kind, id, goal, phase } = self;
        let next = match phase {
            Phase::Token(search) => match get_access_token(search, event) {
                Some(TokenStep::Continue(search)) => Phase::Token(search),
                Some(TokenStep::Done(Ok(token))) => Phase::Api(begin_fetch(kind, goal, token)),
                Some(TokenStep::Done(Err(api_error))) => Phase::Embed { api_error },
                None => {
                    return None;
                },
            },
            Phase::Api(fetch) => match event {
                Event::Reply(reply) => match advance_with_reply(fetch, kind, reply) {
                    Some(ApiStep::Continue(fetch)) => Phase::Api(fetch),
                    Some(ApiStep::Done(Ok(outcome))) => Phase::Done(Ok(outcome)),
                    Some(ApiStep::Done(Err(api_error))) => Phase::Embed { api_error },
                    None => {
                        return None;
                    },
                },
                Event::Time(_) => {
                    return None;
                },
            },
            Phase::Embed { api_error } => match event {
                Event::Reply(reply) => Phase::Done(
                    outcome_from_embed(kind, goal, api_error.as_str(), reply),
                ),
                Event::Time(_) => {
                    return None;
                },
            },
            Phase::Done(_) => {
                return None;
            },
        };
        Some(Import { kind, id, goal, phase: next })
    }
}

/// The importer, as its host sees it.
pub struct Component;

impl Component {
    /// Whether `url` refers to something that can be imported.
    pub fn can_handle_url(url: &str) -> (r: bool)
        ensures
            r == (link_target(url@) is Some),
    {
        parse_url(url).is_some()
    }

    /// Begins the import of the description of what `url` refers to.
    pub fn get_collection_info(url: &str) -> (r: Result<Import, String>)
        ensures
            import_result(r) == begin_url(url@, Goal::Summary),
    {
        Import::start(url, Goal::Summary)
    }

    /// Begins the import of the tracks of what `url` refers to.
    pub fn get_tracks(url: &str) -> (r: Result<Import, String>)
        ensures
            import_result(r) == begin_url(url@, Goal::Tracks),
    {
        Import::start(url, Goal::Tracks)
    }
}

} // verus!
