//! What holds of whole imports: of a token search, an exchange with the API or an
//! import that is taken through a series of events.

use vstd::prelude::*;

use crate::collection::{
    api_album, api_playlist, embed_album, embed_playlist, image_path, law_low_bits, low32,
};
use crate::exchange::{ActionView, EventView};
use crate::http::{
    album_info_path, album_tracks_path, api_document, api_path_request, embed_html,
    embed_page_request, law_request_addresses, playlist_info_path, playlist_tracks_path,
    reply_document, Method, ResponseView,
};
use crate::import::{
    after_api, after_token, api_data_step, api_step, begin, begin_url, both_failed, data_fits,
    embed_outcome, embed_reply_entity, first_fetch, import_action, import_result, import_step,
    opt_api_step, opt_import, outcome_result, ApiFetchView, ApiStep, ApiStepView, Goal, Import,
    ImportView, Outcome, OutcomeView, Phase, PhaseView,
};
use crate::json::{or_else, JsonValue};
use crate::link::{link_target, SpotifyKind};
use crate::listing::{
    album_page_tracks, embed_list_tracks, item_count, items_take_album, law_album_enters,
    law_embed_list_sound, law_next_page, law_page_tracks_sound, next_offset, offset_fits,
    playlist_page_tracks, says_more,
};
use crate::model::{CollectionType, TrackView};
use crate::numeral::decimal_text;
use crate::page::payload_document;
use crate::token::{
    after_client_id, anonymous_reply_token, client_id_step, embed_reply_token, law_anonymous_token,
    law_embedded_token, law_granted_token, law_token_is_good, no_token, reply_grant, settle,
    settle_at, still_valid, token_action, token_step, with_candidate, ClientIdSearchView,
    ClientIdStepView, TokenSearchView, TokenStepView, TokenView,
};
use crate::track::{
    embed_name, embed_track, identity_image_path, law_embed_track_fields, lemma_somes_from,
    one_or_none, somes, text_or_empty, track_is_sound,
};

verus! {

// ── Runs ─────────────────────────────────────────────────────────────────────

/// Where a search for the client identifier stands after a series of replies. `None`
/// where it was over before the last of them.
pub open spec fn client_id_run(
    step: ClientIdStepView,
    replies: Seq<Result<ResponseView, Seq<char>>>,
) -> Option<ClientIdStepView>
    decreases replies.len(),
{
    if replies.len() == 0 {
        Some(step)
    } else {
        match client_id_run(step, replies.drop_last()) {
            Some(ClientIdStepView::Continue(search)) => Some(
                client_id_step(search, replies.last()),
            ),
            _ => None,
        }
    }
}

/// Where a search for a token stands after a series of events. `None` where it was
/// over before the last of them, or did not wait for one of them.
pub open spec fn token_run(step: TokenStepView, events: Seq<EventView>) -> Option<TokenStepView>
    decreases events.len(),
{
    if events.len() == 0 {
        Some(step)
    } else {
        match token_run(step, events.drop_last()) {
            Some(TokenStepView::Continue(search)) => token_step(search, events.last()),
            _ => None,
        }
    }
}

/// Where an exchange with the API stands after a series of replies. `None` where it
/// was over before the last of them, or could not work on one of them.
pub open spec fn api_run(
    step: ApiStepView,
    kind: SpotifyKind,
    replies: Seq<Result<ResponseView, Seq<char>>>,
) -> Option<ApiStepView>
    decreases replies.len(),
{
    if replies.len() == 0 {
        Some(step)
    } else {
        match api_run(step, kind, replies.drop_last()) {
            Some(ApiStepView::Continue(fetch)) => api_step(fetch, kind, replies.last()),
            _ => None,
        }
    }
}

/// Where an import stands after a series of events. `None` where it was over before
/// the last of them, or could not work on one of them.
pub open spec fn import_run(import: ImportView, events: Seq<EventView>) -> Option<ImportView>
    decreases events.len(),
{
    if events.len() == 0 {
        Some(import)
    } else {
        match import_run(import, events.drop_last()) {
            Some(here) => import_step(here, events.last()),
            None => None,
        }
    }
}

/// The events that a series of replies is.
pub open spec fn replied(replies: Seq<Result<ResponseView, Seq<char>>>) -> Seq<EventView> {
    replies.map_values(|r: Result<ResponseView, Seq<char>>| EventView::Reply(r))
}

/// The last of a series of replies is the last of its events.
proof fn lemma_replied_last(replies: Seq<Result<ResponseView, Seq<char>>>)
    requires
        replies.len() > 0,
    ensures
        replied(replies).drop_last() == replied(replies.drop_last()),
        replied(replies).last() == EventView::Reply(replies.last()),
{
    assert(replied(replies).drop_last() =~= replied(replies.drop_last()));
}

/// A run through two series is the run through the second from where the first
/// leads.
pub proof fn lemma_token_run_on(step: TokenStepView, a: Seq<EventView>, b: Seq<EventView>)
    ensures
        token_run(step, a + b) == match token_run(step, a) {
            Some(here) => token_run(here, b),
            None => None,
        },
    decreases b.len(),
{
    if b.len() == 0 {
        assert(a + b == a);
    } else {
        assert((a + b).drop_last() == a + b.drop_last());
        lemma_token_run_on(step, a, b.drop_last());
    }
}

/// A run through two series is the run through the second from where the first
/// leads.
pub proof fn lemma_import_run_on(import: ImportView, a: Seq<EventView>, b: Seq<EventView>)
    ensures
        import_run(import, a + b) == match import_run(import, a) {
            Some(here) => import_run(here, b),
            None => None,
        },
    decreases b.len(),
{
    if b.len() == 0 {
        assert(a + b == a);
    } else {
        assert((a + b).drop_last() == a + b.drop_last());
        lemma_import_run_on(import, a, b.drop_last());
    }
}

// ── The search for a token ───────────────────────────────────────────────────

/// The candidates for a token in the order of preference: that of the embed page,
/// that of the anonymous endpoint, that by client credentials.
pub open spec fn in_order(
    embed: Option<TokenView>,
    anonymous: Option<TokenView>,
    credentials: Option<TokenView>,
) -> Seq<TokenView> {
    one_or_none(embed) + one_or_none(anonymous) + one_or_none(credentials)
}

/// Candidates that are added one behind the other are in the order of preference.
proof fn lemma_candidates(
    embed: Option<TokenView>,
    anonymous: Option<TokenView>,
    credentials: Option<TokenView>,
)
    ensures
        with_candidate(with_candidate(Seq::empty(), embed), anonymous) == in_order(
            embed,
            anonymous,
            None,
        ),
        with_candidate(in_order(embed, anonymous, None), credentials) == in_order(
            embed,
            anonymous,
            credentials,
        ),
{
    assert(with_candidate(with_candidate(Seq::empty(), embed), anonymous) =~= in_order(
        embed,
        anonymous,
        None,
    ));
    assert(with_candidate(in_order(embed, anonymous, None), credentials) =~= in_order(
        embed,
        anonymous,
        credentials,
    ));
}

/// While the client identifier is searched, the search for a token follows.
proof fn lemma_client_id_run(
    found: Seq<TokenView>,
    step: ClientIdStepView,
    replies: Seq<Result<ResponseView, Seq<char>>>,
)
    requires
        client_id_run(step, replies) is Some,
    ensures
        token_run(after_client_id(found, step), replied(replies)) == Some(
            after_client_id(found, client_id_run(step, replies)->0),
        ),
    decreases replies.len(),
{
    if replies.len() > 0 {
        lemma_replied_last(replies);
        lemma_client_id_run(found, step, replies.drop_last());
    }
}

/// The first two replies and the search for the client identifier lead to the
/// candidates of the embed page and of the anonymous endpoint, and to what the search
/// for the client identifier came to.
proof fn lemma_first_candidates(
    embed: Result<ResponseView, Seq<char>>,
    anonymous: Result<ResponseView, Seq<char>>,
    searched: Seq<Result<ResponseView, Seq<char>>>,
)
    requires
        client_id_run(
            ClientIdStepView::Continue(ClientIdSearchView::FrontPage),
            searched,
        ) is Some,
    ensures
        token_run(
            TokenStepView::Continue(TokenSearchView::EmbedPage),
            replied(seq![embed, anonymous] + searched),
        ) == Some(
            after_client_id(
                in_order(embed_reply_token(embed), anonymous_reply_token(anonymous), None),
                client_id_run(
                    ClientIdStepView::Continue(ClientIdSearchView::FrontPage),
                    searched,
                )->0,
            ),
        ),
{
    let start = TokenStepView::Continue(TokenSearchView::EmbedPage);
    let two = seq![EventView::Reply(embed), EventView::Reply(anonymous)];
    let found = in_order(embed_reply_token(embed), anonymous_reply_token(anonymous), None);
    let front = ClientIdStepView::Continue(ClientIdSearchView::FrontPage);
    assert(two.drop_last() == seq![EventView::Reply(embed)]);
    assert(two.drop_last().drop_last() == Seq::<EventView>::empty());
    reveal_with_fuel(token_run, 3);
    lemma_candidates(embed_reply_token(embed), anonymous_reply_token(anonymous), None);
    assert(token_run(start, two) == Some(after_client_id(found, front)));
    assert(replied(seq![embed, anonymous] + searched) == two + replied(searched));
    lemma_token_run_on(start, two, replied(searched));
    lemma_client_id_run(found, front, searched);
}

/// Where the client identifier is not found, the candidates are the token of the
/// embed page and then that of the anonymous endpoint.
pub proof fn law_candidates_without_client_id(
    embed: Result<ResponseView, Seq<char>>,
    anonymous: Result<ResponseView, Seq<char>>,
    searched: Seq<Result<ResponseView, Seq<char>>>,
)
    requires
        client_id_run(ClientIdStepView::Continue(ClientIdSearchView::FrontPage), searched) == Some(
            ClientIdStepView::Done(None),
        ),
    ensures
        token_run(
            TokenStepView::Continue(TokenSearchView::EmbedPage),
            replied(seq![embed, anonymous] + searched),
        ) == Some(
            settle(in_order(embed_reply_token(embed), anonymous_reply_token(anonymous), None)),
        ),
{
    lemma_first_candidates(embed, anonymous, searched);
}

/// Where the client identifier is found, the token that is granted with it is the
/// last of the candidates. A token that is granted for some seconds expires that many
/// seconds after the time at which it was granted.
pub proof fn law_candidates_with_client_id(
    embed: Result<ResponseView, Seq<char>>,
    anonymous: Result<ResponseView, Seq<char>>,
    searched: Seq<Result<ResponseView, Seq<char>>>,
    client_id: Seq<char>,
    granting: Result<ResponseView, Seq<char>>,
    now: u64,
)
    requires
        client_id_run(ClientIdStepView::Continue(ClientIdSearchView::FrontPage), searched) == Some(
            ClientIdStepView::Done(Some(client_id)),
        ),
    ensures
        ({
            let start = TokenStepView::Continue(TokenSearchView::EmbedPage);
            let events = replied(seq![embed, anonymous] + searched).push(EventView::Reply(granting));
            let (e, a) = (embed_reply_token(embed), anonymous_reply_token(anonymous));
            match reply_grant(granting) {
                None => token_run(start, events) == Some(settle(in_order(e, a, None))),
                Some(grant) => match grant.expires_in {
                    None => token_run(start, events) == Some(
                        settle(
                            in_order(
                                e,
                                a,
                                Some(TokenView { token: grant.token, expires_at: None }),
                            ),
                        ),
                    ),
                    Some(seconds) => now + seconds <= u64::MAX ==> token_run(
                        start,
                        events.push(EventView::Time(now)),
                    ) == Some(
                        settle(
                            in_order(
                                e,
                                a,
                                Some(
                                    TokenView {
                                        token: grant.token,
                                        expires_at: Some((now + seconds) as u64),
                                    },
                                ),
                            ),
                        ),
                    ),
                },
            }
        }),
{
    lemma_first_candidates(embed, anonymous, searched);
    let before = replied(seq![embed, anonymous] + searched);
    let events = before.push(EventView::Reply(granting));
    assert(events.drop_last() == before);
    assert(events.push(EventView::Time(now)).drop_last() == events);
    let (e, a) = (embed_reply_token(embed), anonymous_reply_token(anonymous));
    if let Some(grant) = reply_grant(granting) {
        match grant.expires_in {
            None => {
                lemma_candidates(e, a, Some(TokenView { token: grant.token, expires_at: None }));
            },
            Some(seconds) => {
                let expires_at = Some((now + seconds) as u64);
                lemma_candidates(e, a, Some(TokenView { token: grant.token, expires_at }));
            },
        }
    }
}

/// The token that is used, where `times[i]` is the time at which candidate `i` is
/// looked at: the first candidate that is good then.
pub open spec fn choice(candidates: Seq<TokenView>, times: Seq<u64>) -> Result<Seq<char>, Seq<char>>
    decreases candidates.len(),
{
    if candidates.len() == 0 {
        Err(no_token())
    } else if still_valid(candidates[0].expires_at, times[0] as nat) {
        Ok(candidates[0].token)
    } else {
        choice(candidates.skip(1), times.skip(1))
    }
}

/// The readings of the clock that the choice among candidates takes.
pub open spec fn choice_events(candidates: Seq<TokenView>, times: Seq<u64>) -> Seq<EventView>
    decreases candidates.len(),
{
    if candidates.len() == 0 || candidates[0].expires_at is None {
        Seq::empty()
    } else if still_valid(candidates[0].expires_at, times[0] as nat) {
        seq![EventView::Time(times[0])]
    } else {
        seq![EventView::Time(times[0])] + choice_events(candidates.skip(1), times.skip(1))
    }
}

/// A search that has its candidates ends with the first that is good.
pub proof fn law_choice_is_made(candidates: Seq<TokenView>, times: Seq<u64>)
    requires
        times.len() == candidates.len(),
        forall|i: int| 0 <= i < times.len() ==> #[trigger] times[i] + 60 <= u64::MAX,
    ensures
        token_run(settle(candidates), choice_events(candidates, times)) == Some(
            TokenStepView::Done(choice(candidates, times)),
        ),
    decreases candidates.len(),
{
    if candidates.len() > 0 && candidates[0].expires_at is Some {
        let one = seq![EventView::Time(times[0])];
        let rest = choice_events(candidates.skip(1), times.skip(1));
        assert(one.drop_last() == Seq::<EventView>::empty());
        reveal_with_fuel(token_run, 2);
        assert(token_run(settle(candidates), one) == Some(
            settle_at(candidates, times[0] as nat),
        ));
        if !still_valid(candidates[0].expires_at, times[0] as nat) {
            assert forall|i: int| 0 <= i < times.skip(1).len() implies #[trigger] times.skip(1)[i]
                + 60 <= u64::MAX by {
                assert(times.skip(1)[i] == times[i + 1]);
            }
            law_choice_is_made(candidates.skip(1), times.skip(1));
            lemma_token_run_on(settle(candidates), one, rest);
        }
    }
}

/// The token that is used is that of the first candidate that is good when it is
/// looked at. Where none is, there is no token.
pub proof fn law_first_good_candidate(candidates: Seq<TokenView>, times: Seq<u64>)
    requires
        times.len() == candidates.len(),
    ensures
        forall|i: int|
            0 <= i < candidates.len() && still_valid(
                (#[trigger] candidates[i]).expires_at,
                times[i] as nat,
            ) && (forall|j: int|
                0 <= j < i ==> !still_valid(
                    (#[trigger] candidates[j]).expires_at,
                    times[j] as nat,
                )) ==> choice(candidates, times) == Ok::<Seq<char>, Seq<char>>(candidates[i].token),
        (forall|j: int|
            0 <= j < candidates.len() ==> !still_valid(
                (#[trigger] candidates[j]).expires_at,
                times[j] as nat,
            )) ==> choice(candidates, times) == Err::<Seq<char>, Seq<char>>(no_token()),
    decreases candidates.len(),
{
    if candidates.len() > 0 {
        let c = candidates.skip(1);
        let t = times.skip(1);
        law_first_good_candidate(c, t);
        assert forall|i: int|
            0 <= i < candidates.len() && still_valid(
                (#[trigger] candidates[i]).expires_at,
                times[i] as nat,
            ) && (forall|j: int|
                0 <= j < i ==> !still_valid(
                    (#[trigger] candidates[j]).expires_at,
                    times[j] as nat,
                )) implies choice(candidates, times) == Ok::<Seq<char>, Seq<char>>(
            candidates[i].token,
        ) by {
            if i > 0 {
                assert(!still_valid(candidates[0].expires_at, times[0] as nat));
                assert(c[i - 1] == candidates[i] && t[i - 1] == times[i]);
                assert forall|j: int| 0 <= j < i - 1 implies !still_valid(
                    (#[trigger] c[j]).expires_at,
                    t[j] as nat,
                ) by {
                    assert(c[j] == candidates[j + 1] && t[j] == times[j + 1]);
                }
            }
        }
        if forall|j: int|
            0 <= j < candidates.len() ==> !still_valid(
                (#[trigger] candidates[j]).expires_at,
                times[j] as nat,
            ) {
            assert(!still_valid(candidates[0].expires_at, times[0] as nat));
            assert forall|j: int| 0 <= j < c.len() implies !still_valid(
                (#[trigger] c[j]).expires_at,
                t[j] as nat,
            ) by {
                assert(c[j] == candidates[j + 1] && t[j] == times[j + 1]);
            }
        }
    }
}

/// How far a search for a token is from its end: the stage, and what is left of it.
pub open spec fn distance(search: TokenSearchView) -> (nat, nat) {
    match search {
        TokenSearchView::EmbedPage => (6, 0),
        TokenSearchView::Anonymous { found } => (5, 0),
        TokenSearchView::ClientId { found, search } => match search {
            ClientIdSearchView::FrontPage => (4, 0),
            ClientIdSearchView::Script { url, rest } => (3, rest.len()),
        },
        TokenSearchView::Credentials { found, client_id } => (2, 0),
        TokenSearchView::Granted { found, token, expires_in } => (1, 0),
        TokenSearchView::Choice { candidates } => (0, candidates.len()),
    }
}

/// A search for a token comes nearer to its end with every event, so that it does
/// not go on for ever.
pub proof fn law_token_search_ends(search: TokenSearchView, event: EventView)
    ensures
        token_step(search, event) matches Some(TokenStepView::Continue(next)) ==> {
            let (stage, left) = distance(search);
            let (next_stage, next_left) = distance(next);
            next_stage < stage || (next_stage == stage && next_left < left)
        },
{
}

// ── Listings ─────────────────────────────────────────────────────────────────

/// Where an exchange with the API stands after a series of documents. `None` where it
/// was over before the last of them, or could not work on one of them.
pub open spec fn data_run(
    step: ApiStepView,
    kind: SpotifyKind,
    documents: Seq<JsonValue>,
) -> Option<ApiStepView>
    decreases documents.len(),
{
    if documents.len() == 0 {
        Some(step)
    } else {
        match data_run(step, kind, documents.drop_last()) {
            Some(ApiStepView::Continue(fetch)) => if data_fits(fetch, documents.last()) {
                Some(api_data_step(fetch, kind, documents.last()))
            } else {
                None
            },
            _ => None,
        }
    }
}

/// Replies that hold documents lead to where the documents lead.
pub proof fn law_replies_bring_documents(
    step: ApiStepView,
    kind: SpotifyKind,
    replies: Seq<Result<ResponseView, Seq<char>>>,
    documents: Seq<JsonValue>,
)
    requires
        replies.len() == documents.len(),
        forall|i: int|
            0 <= i < replies.len() ==> api_document(#[trigger] replies[i]) == Ok::<
                JsonValue,
                Seq<char>,
            >(documents[i]),
    ensures
        api_run(step, kind, replies) == data_run(step, kind, documents),
    decreases replies.len(),
{
    if replies.len() > 0 {
        let r = replies.drop_last();
        let d = documents.drop_last();
        assert forall|i: int| 0 <= i < r.len() implies api_document(#[trigger] r[i]) == Ok::<
            JsonValue,
            Seq<char>,
        >(d[i]) by {
            assert(r[i] == replies[i]);
        }
        law_replies_bring_documents(step, kind, r, d);
        assert(api_document(replies[replies.len() - 1]) == Ok::<JsonValue, Seq<char>>(
            documents[documents.len() - 1],
        ));
    }
}

/// How many items stand on the first `n` pages, each page counted in 32 bits.
pub open spec fn items_before(pages: Seq<JsonValue>, n: nat) -> nat
    decreases n,
{
    if n == 0 {
        0
    } else {
        let page = pages[n - 1];
        items_before(pages, (n - 1) as nat) + match page.array_member("items"@) {
            Some(items) => low32(items.len()) as nat,
            None => 0,
        }
    }
}

/// The tracks on the first `n` pages of a playlist.
pub open spec fn playlist_tracks_before(pages: Seq<JsonValue>, n: nat) -> Seq<TrackView>
    decreases n,
{
    if n == 0 {
        Seq::empty()
    } else {
        playlist_tracks_before(pages, (n - 1) as nat) + playlist_page_tracks(pages[n - 1])
    }
}

/// The tracks on the first `n` pages of an album.
pub open spec fn album_tracks_before(
    pages: Seq<JsonValue>,
    name: Seq<char>,
    cover: Option<Seq<char>>,
    n: nat,
) -> Seq<TrackView>
    decreases n,
{
    if n == 0 {
        Seq::empty()
    } else {
        album_tracks_before(pages, name, cover, (n - 1) as nat) + album_page_tracks(
            pages[n - 1],
            name,
            cover,
        )
    }
}

/// `pages` is a whole listing: every page but the last one says that another follows,
/// and every place can be written in 32 bits.
pub open spec fn whole_listing(pages: Seq<JsonValue>) -> bool {
    &&& pages.len() > 0
    &&& forall|k: int|
        #![trigger pages[k]]
        0 <= k < pages.len() ==> {
            &&& next_offset(pages[k], items_before(pages, k as nat)) is Some <==> k < pages.len() - 1
            &&& offset_fits(pages[k], items_before(pages, k as nat))
        }
}

/// The listing of a playlist goes from page to page without leaving out an item, and
/// yields the tracks of all pages in their order.
pub proof fn law_playlist_listing(token: Seq<char>, pages: Seq<JsonValue>, n: nat)
    requires
        whole_listing(pages),
        n <= pages.len(),
    ensures
        data_run(
            ApiStepView::Continue(first_fetch(SpotifyKind::Playlist, Goal::Tracks, token)),
            SpotifyKind::Playlist,
            pages.take(n as int),
        ) == Some(
            if n < pages.len() {
                ApiStepView::Continue(
                    ApiFetchView::PlaylistPage {
                        token,
                        offset: items_before(pages, n),
                        tracks: playlist_tracks_before(pages, n),
                    },
                )
            } else {
                ApiStepView::Done(Ok(OutcomeView::Tracks(playlist_tracks_before(pages, n))))
            },
        ),
    decreases n,
{
    if n > 0 {
        let k = (n - 1) as nat;
        law_playlist_listing(token, pages, k);
        assert(pages.take(n as int).drop_last() == pages.take(k as int));
        assert(pages.take(n as int).last() == pages[k as int]);
        assert(next_offset(pages[k as int], items_before(pages, k)) is Some <==> k < pages.len() - 1);
    }
}

/// The listing of an album begins with the album itself, goes from page to page without
/// leaving out an item, and yields the tracks of all pages in their order, with the name
/// and the cover of the album.
#[verifier::spinoff_prover]
#[verifier::rlimit(40)]
pub proof fn law_album_listing(token: Seq<char>, album: JsonValue, pages: Seq<JsonValue>, n: nat)
    requires
        whole_listing(pages),
        forall|k: int| 0 <= k < pages.len() ==> items_take_album(#[trigger] pages[k]),
        n <= pages.len(),
    ensures
        ({
            let name = text_or_empty(album.text_member("name"@));
            let cover = album.text_at(image_path());
            data_run(
                ApiStepView::Continue(first_fetch(SpotifyKind::Album, Goal::Tracks, token)),
                SpotifyKind::Album,
                seq![album] + pages.take(n as int),
            ) == Some(
                if n < pages.len() {
                    ApiStepView::Continue(
                        ApiFetchView::AlbumPage {
                            token,
                            name,
                            cover,
                            offset: items_before(pages, n),
                            tracks: album_tracks_before(pages, name, cover, n),
                        },
                    )
                } else {
                    ApiStepView::Done(
                        Ok(OutcomeView::Tracks(album_tracks_before(pages, name, cover, n))),
                    )
                },
            )
        }),
    decreases n,
{
    let documents = seq![album] + pages.take(n as int);
    if n > 0 {
        let k = (n - 1) as nat;
        law_album_listing(token, album, pages, k);
        assert(documents.drop_last() == seq![album] + pages.take(k as int));
        assert(documents.last() == pages[k as int]);
        assert(next_offset(pages[k as int], items_before(pages, k)) is Some <==> k < pages.len() - 1);
    } else {
        assert(documents == seq![album]);
        assert(documents.drop_last() == Seq::<JsonValue>::empty());
        reveal_with_fuel(data_run, 2);
    }
}

// ── The import ───────────────────────────────────────────────────────────────

/// An import of the given collection that is at `phase`.
pub open spec fn at(kind: SpotifyKind, id: Seq<char>, goal: Goal, phase: PhaseView) -> ImportView {
    ImportView { kind, id, goal, phase }
}

/// What an import is at after a step of its search for a token.
pub open spec fn token_phase(kind: SpotifyKind, goal: Goal, step: TokenStepView) -> PhaseView {
    match step {
        TokenStepView::Continue(search) => PhaseView::Token(search),
        TokenStepView::Done(token) => after_token(kind, goal, token),
    }
}

/// An import follows its search for a token.
pub proof fn lemma_follows_token_search(
    kind: SpotifyKind,
    id: Seq<char>,
    goal: Goal,
    search: TokenSearchView,
    events: Seq<EventView>,
)
    requires
        token_run(TokenStepView::Continue(search), events) is Some,
    ensures
        import_run(at(kind, id, goal, PhaseView::Token(search)), events) == Some(
            at(
                kind,
                id,
                goal,
                token_phase(kind, goal, token_run(TokenStepView::Continue(search), events)->0),
            ),
        ),
    decreases events.len(),
{
    if events.len() > 0 {
        lemma_follows_token_search(kind, id, goal, search, events.drop_last());
    }
}

/// An import follows its exchange with the API.
pub proof fn lemma_follows_api(
    kind: SpotifyKind,
    id: Seq<char>,
    goal: Goal,
    fetch: ApiFetchView,
    replies: Seq<Result<ResponseView, Seq<char>>>,
)
    requires
        api_run(ApiStepView::Continue(fetch), kind, replies) is Some,
    ensures
        import_run(at(kind, id, goal, PhaseView::Api(fetch)), replied(replies)) == Some(
            at(
                kind,
                id,
                goal,
                after_api(api_run(ApiStepView::Continue(fetch), kind, replies)->0),
            ),
        ),
    decreases replies.len(),
{
    if replies.len() > 0 {
        lemma_replied_last(replies);
        lemma_follows_api(kind, id, goal, fetch, replies.drop_last());
    }
}

/// Where a token is found and the API answers with it, the import ends with what the
/// API yields, and the embed page is not asked again.
pub proof fn law_api_comes_first(
    kind: SpotifyKind,
    id: Seq<char>,
    goal: Goal,
    searching: Seq<EventView>,
    token: Seq<char>,
    replies: Seq<Result<ResponseView, Seq<char>>>,
    outcome: OutcomeView,
)
    requires
        token_run(TokenStepView::Continue(TokenSearchView::EmbedPage), searching) == Some(
            TokenStepView::Done(Ok(token)),
        ),
        api_run(ApiStepView::Continue(first_fetch(kind, goal, token)), kind, replies) == Some(
            ApiStepView::Done(Ok(outcome)),
        ),
    ensures
        import_run(begin(kind, id, goal), searching + replied(replies)) == Some(
            at(kind, id, goal, PhaseView::Done(Ok(outcome))),
        ),
{
    lemma_follows_token_search(kind, id, goal, TokenSearchView::EmbedPage, searching);
    lemma_follows_api(kind, id, goal, first_fetch(kind, goal, token), replies);
    lemma_import_run_on(begin(kind, id, goal), searching, replied(replies));
}

/// Where no token is found, the import ends with what the embed page yields.
pub proof fn law_embed_page_without_token(
    kind: SpotifyKind,
    id: Seq<char>,
    goal: Goal,
    searching: Seq<EventView>,
    api_error: Seq<char>,
    reply: Result<ResponseView, Seq<char>>,
)
    requires
        token_run(TokenStepView::Continue(TokenSearchView::EmbedPage), searching) == Some(
            TokenStepView::Done(Err(api_error)),
        ),
    ensures
        import_run(begin(kind, id, goal), searching.push(EventView::Reply(reply))) == Some(
            at(kind, id, goal, PhaseView::Done(embed_outcome(kind, goal, api_error, reply))),
        ),
{
    lemma_follows_token_search(kind, id, goal, TokenSearchView::EmbedPage, searching);
    assert(searching.push(EventView::Reply(reply)).drop_last() == searching);
}

/// Where the API fails, at whatever point, the import ends with what the embed page
/// yields.
pub proof fn law_embed_page_after_api(
    kind: SpotifyKind,
    id: Seq<char>,
    goal: Goal,
    searching: Seq<EventView>,
    token: Seq<char>,
    replies: Seq<Result<ResponseView, Seq<char>>>,
    api_error: Seq<char>,
    reply: Result<ResponseView, Seq<char>>,
)
    requires
        token_run(TokenStepView::Continue(TokenSearchView::EmbedPage), searching) == Some(
            TokenStepView::Done(Ok(token)),
        ),
        api_run(ApiStepView::Continue(first_fetch(kind, goal, token)), kind, replies) == Some(
            ApiStepView::Done(Err(api_error)),
        ),
    ensures
        import_run(
            begin(kind, id, goal),
            (searching + replied(replies)).push(EventView::Reply(reply)),
        ) == Some(at(kind, id, goal, PhaseView::Done(embed_outcome(kind, goal, api_error, reply)))),
{
    lemma_follows_token_search(kind, id, goal, TokenSearchView::EmbedPage, searching);
    lemma_follows_api(kind, id, goal, first_fetch(kind, goal, token), replies);
    lemma_import_run_on(begin(kind, id, goal), searching, replied(replies));
    let events = searching + replied(replies);
    assert(events.push(EventView::Reply(reply)).drop_last() == events);
}

/// An import begins exactly for the links that can be handled, whatever its goal, and
/// the error for any other link names it.
pub proof fn law_handled_links_begin(url: Seq<char>, goal: Goal)
    ensures
        begin_url(url, goal) is Ok <==> link_target(url) is Some,
        begin_url(url, goal) matches Err(message) ==> message == "Unsupported URL: "@ + url,
        begin_url(url, goal) matches Ok(import) ==> on_course(import),
{
}

/// An import is over once it has an outcome: no event takes it further.
pub proof fn law_outcome_is_final(import: ImportView, event: EventView)
    requires
        import.phase is Done,
    ensures
        import_step(import, event) is None,
{
}

/// An import takes the answer to what it asks, and no other event. A reply is refused only
/// where the API sends a document that cannot be worked on, and a time only where the time
/// of expiry, or the minute after now, cannot be written in 64 bits. Only an import that
/// is over asks for nothing.
pub proof fn law_answers_are_taken(
    import: ImportView,
    reply: Result<ResponseView, Seq<char>>,
    now: u64,
)
    ensures
        import_action(import) is Finish <==> import.phase is Done,
        import_action(import) is Fetch ==> {
            &&& import_step(import, EventView::Time(now)) is None
            &&& import_step(import, EventView::Reply(reply)) is None <==> {
                &&& import.phase matches PhaseView::Api(fetch)
                &&& api_document(reply) matches Ok(data)
                &&& !data_fits(fetch, data)
            }
        },
        import_action(import) is ReadClock ==> {
            &&& import_step(import, EventView::Reply(reply)) is None
            &&& import_step(import, EventView::Time(now)) is None <==> match import.phase {
                PhaseView::Token(TokenSearchView::Granted { found, token, expires_in }) => now
                    + expires_in > u64::MAX,
                _ => now + 60 > u64::MAX,
            }
        },
{
}

/// Every one of `tracks` is sound.
pub open spec fn all_sound(tracks: Seq<TrackView>) -> bool {
    forall|i: int| 0 <= i < tracks.len() ==> track_is_sound(#[trigger] tracks[i])
}

/// An import asks for what its collection and its goal call for, and an outcome is
/// what the goal calls for, of the kind of the collection. Its tracks are sound. An error
/// words both why the API failed and why the embed page did.
pub open spec fn on_course(import: ImportView) -> bool {
    match import.phase {
        PhaseView::Token(_) => true,
        PhaseView::Api(fetch) => match fetch {
            ApiFetchView::Summary { token } => import.goal == Goal::Summary,
            ApiFetchView::PlaylistPage { token, offset, tracks } => import.goal == Goal::Tracks
                && import.kind == SpotifyKind::Playlist && all_sound(tracks),
            ApiFetchView::Album { token } => import.goal == Goal::Tracks && import.kind
                == SpotifyKind::Album,
            ApiFetchView::AlbumPage { token, name, cover, offset, tracks } => import.goal
                == Goal::Tracks && import.kind == SpotifyKind::Album && all_sound(tracks),
        },
        PhaseView::Embed { api_error } => true,
        PhaseView::Done(Ok(OutcomeView::Summary(summary))) => {
            &&& import.goal == Goal::Summary
            &&& summary.kind == match import.kind {
                SpotifyKind::Playlist => CollectionType::Playlist,
                SpotifyKind::Album => CollectionType::Album,
            }
        },
        PhaseView::Done(Ok(OutcomeView::Tracks(tracks))) => import.goal == Goal::Tracks
            && all_sound(tracks),
        PhaseView::Done(Err(message)) => exists|api_error: Seq<char>, embed_error: Seq<char>|
            message == both_failed(api_error, embed_error),
    }
}

/// A step leaves an import on course.
proof fn lemma_step_stays_on_course(before: ImportView, event: EventView)
    requires
        on_course(before),
        import_step(before, event) is Some,
    ensures
        on_course(import_step(before, event)->0),
{
    let after = import_step(before, event)->0;
    if let EventView::Reply(reply) = event {
        match before.phase {
            PhaseView::Api(fetch) => {
                if let Ok(data) = api_document(reply) {
                    match fetch {
                        ApiFetchView::PlaylistPage { token, offset, tracks } => {
                            law_page_tracks_sound(data, Seq::empty(), None);
                            assert(all_sound(tracks + playlist_page_tracks(data)));
                        },
                        ApiFetchView::AlbumPage { token, name, cover, offset, tracks } => {
                            law_page_tracks_sound(data, name, cover);
                            assert(all_sound(tracks + album_page_tracks(data, name, cover)));
                        },
                        _ => {},
                    }
                }
            },
            PhaseView::Embed { api_error } => match embed_reply_entity(reply) {
                Ok(entity) => {
                    law_embed_list_sound(entity, None, None);
                    law_embed_list_sound(
                        entity,
                        embed_name(entity),
                        or_else(
                            entity.text_at(image_path()),
                            entity.text_at(identity_image_path()),
                        ),
                    );
                },
                Err(embed_error) => {
                    assert(after.phase == PhaseView::Done(
                        Err(both_failed(api_error, embed_error)),
                    ));
                },
            },
            _ => {},
        }
    }
}

/// Whatever happens, an import keeps its collection and its goal and stays on course.
pub proof fn law_import_stays_on_course(
    kind: SpotifyKind,
    id: Seq<char>,
    goal: Goal,
    events: Seq<EventView>,
)
    ensures
        import_run(begin(kind, id, goal), events) matches Some(import) ==> {
            &&& import.kind == kind
            &&& import.id == id
            &&& import.goal == goal
            &&& on_course(import)
        },
    decreases events.len(),
{
    if events.len() > 0 {
        law_import_stays_on_course(kind, id, goal, events.drop_last());
        if let Some(before) = import_run(begin(kind, id, goal), events.drop_last()) {
            if let Some(after) = import_step(before, events.last()) {
                lemma_step_stays_on_course(before, events.last());
            }
        }
    }
}

// ── Tokens that are fresh ────────────────────────────────────────────────────

/// A token that the embed page has with a timestamp more than a minute ahead is the one
/// that is used, whatever the other sources answered.
#[verifier::spinoff_prover]
#[verifier::rlimit(40)]
pub proof fn law_fresh_embed_token_is_used(
    embed: Result<ResponseView, Seq<char>>,
    html: Seq<char>,
    next_data: JsonValue,
    state: JsonValue,
    token: Seq<char>,
    ms: u64,
    anonymous: Result<ResponseView, Seq<char>>,
    searched: Seq<Result<ResponseView, Seq<char>>>,
    now: u64,
)
    requires
        embed_html(embed) == Ok::<Seq<char>, Seq<char>>(html),
        payload_document(html) == Some(next_data),
        next_data.pointer(seq!["props"@, "pageProps"@, "state"@]) == Some(state),
        state.get("accessToken"@) == Some(JsonValue::Text(token)),
        state.get("accessTokenExpirationTimestampMs"@) == Some(JsonValue::Number(Some(ms))),
        token.len() > 0,
        ms >= 1000 * (now + 61),
        client_id_run(ClientIdStepView::Continue(ClientIdSearchView::FrontPage), searched) == Some(
            ClientIdStepView::Done(None),
        ),
    ensures
        token_run(
            TokenStepView::Continue(TokenSearchView::EmbedPage),
            replied(seq![embed, anonymous] + searched).push(EventView::Time(now)),
        ) == Some(TokenStepView::Done(Ok(token))),
{
    law_embedded_token(next_data);
    law_candidates_without_client_id(embed, anonymous, searched);
    let events = replied(seq![embed, anonymous] + searched);
    assert(events.push(EventView::Time(now)).drop_last() == events);
    let t = embed_reply_token(embed)->0;
    law_token_is_good(t.expires_at, now as nat, ms);
    let candidates = in_order(Some(t), anonymous_reply_token(anonymous), None);
    assert(candidates[0] == t);
}

/// A token of the anonymous endpoint with a timestamp more than a minute ahead is used
/// where the embed page has none.
pub proof fn law_fresh_anonymous_token_is_used(
    embed: Result<ResponseView, Seq<char>>,
    anonymous: Result<ResponseView, Seq<char>>,
    data: JsonValue,
    token: Seq<char>,
    ms: u64,
    searched: Seq<Result<ResponseView, Seq<char>>>,
    now: u64,
)
    requires
        embed_reply_token(embed) is None,
        reply_document(anonymous) == Some(data),
        data.get("accessToken"@) == Some(JsonValue::Text(token)),
        data.get("accessTokenExpirationTimestampMs"@) == Some(JsonValue::Number(Some(ms))),
        ms >= 1000 * (now + 61),
        client_id_run(ClientIdStepView::Continue(ClientIdSearchView::FrontPage), searched) == Some(
            ClientIdStepView::Done(None),
        ),
    ensures
        token_run(
            TokenStepView::Continue(TokenSearchView::EmbedPage),
            replied(seq![embed, anonymous] + searched).push(EventView::Time(now)),
        ) == Some(TokenStepView::Done(Ok(token))),
{
    law_anonymous_token(data);
    law_candidates_without_client_id(embed, anonymous, searched);
    let events = replied(seq![embed, anonymous] + searched);
    assert(events.push(EventView::Time(now)).drop_last() == events);
    let t = anonymous_reply_token(anonymous)->0;
    law_token_is_good(t.expires_at, now as nat, ms);
    assert(in_order(None, Some(t), None)[0] == t);
}

/// A token that is granted for more than a minute is used where there is no other.
#[verifier::spinoff_prover]
#[verifier::rlimit(40)]
pub proof fn law_granted_token_is_used(
    embed: Result<ResponseView, Seq<char>>,
    anonymous: Result<ResponseView, Seq<char>>,
    searched: Seq<Result<ResponseView, Seq<char>>>,
    client_id: Seq<char>,
    granting: Result<ResponseView, Seq<char>>,
    data: JsonValue,
    token: Seq<char>,
    seconds: u64,
    now: u64,
)
    requires
        embed_reply_token(embed) is None,
        anonymous_reply_token(anonymous) is None,
        client_id_run(ClientIdStepView::Continue(ClientIdSearchView::FrontPage), searched) == Some(
            ClientIdStepView::Done(Some(client_id)),
        ),
        reply_document(granting) == Some(data),
        data.get("access_token"@) == Some(JsonValue::Text(token)),
        data.get("expires_in"@) == Some(JsonValue::Number(Some(seconds))),
        now + seconds <= u64::MAX,
        seconds > 60,
    ensures
        token_run(
            TokenStepView::Continue(TokenSearchView::EmbedPage),
            replied(seq![embed, anonymous] + searched).push(EventView::Reply(granting)).push(
                EventView::Time(now),
            ).push(EventView::Time(now)),
        ) == Some(TokenStepView::Done(Ok(token))),
{
    law_granted_token(data);
    law_candidates_with_client_id(embed, anonymous, searched, client_id, granting, now);
    let events = replied(seq![embed, anonymous] + searched).push(EventView::Reply(granting)).push(
        EventView::Time(now),
    );
    assert(events.push(EventView::Time(now)).drop_last() == events);
    let expires_at = Some((now + seconds) as u64);
    law_token_is_good(expires_at, now as nat, 0);
    let t = TokenView { token, expires_at };
    assert(in_order(None, None, Some(t))[0] == t);
}

// ── Listings, by what their pages say ────────────────────────────────────────

/// How many items stand on the first `n` pages.
pub open spec fn items_on(pages: Seq<JsonValue>, n: nat) -> nat
    decreases n,
{
    if n == 0 {
        0
    } else {
        items_on(pages, (n - 1) as nat) + item_count(pages[n - 1])
    }
}

/// `pages` is a listing to its end: each page but the last has items and a member `next`
/// that is not null, and the last one has not. No page begins further than can be written
/// in 32 bits.
pub open spec fn listing_to_its_end(pages: Seq<JsonValue>) -> bool {
    &&& pages.len() > 0
    &&& forall|k: int|
        #![trigger pages[k]]
        0 <= k < pages.len() ==> {
            &&& says_more(pages[k]) <==> k < pages.len() - 1
            &&& k < pages.len() - 1 ==> items_on(pages, (k + 1) as nat) <= u32::MAX
        }
}

/// The pages of a listing to its end begin where the items before them end.
proof fn lemma_listing_is_whole(pages: Seq<JsonValue>, n: nat)
    requires
        listing_to_its_end(pages),
        n < pages.len(),
    ensures
        items_before(pages, n) == items_on(pages, n),
    decreases n,
{
    if n > 0 {
        let k = (n - 1) as nat;
        lemma_listing_is_whole(pages, k);
        assert(says_more(pages[k as int]));
        assert(items_on(pages, n) <= u32::MAX);
        law_low_bits(item_count(pages[k as int]));
    }
}

/// A listing to its end is a whole listing.
proof fn lemma_whole_listing(pages: Seq<JsonValue>)
    requires
        listing_to_its_end(pages),
    ensures
        whole_listing(pages),
{
    assert forall|k: int| #![trigger pages[k]] 0 <= k < pages.len() implies {
        &&& next_offset(pages[k], items_before(pages, k as nat)) is Some <==> k < pages.len() - 1
        &&& offset_fits(pages[k], items_before(pages, k as nat))
    } by {
        lemma_listing_is_whole(pages, k as nat);
        law_next_page(pages[k], items_before(pages, k as nat));
        if k < pages.len() - 1 {
            assert(items_on(pages, (k + 1) as nat) <= u32::MAX);
            assert(items_on(pages, (k + 1) as nat) == items_on(pages, k as nat) + item_count(
                pages[k],
            ));
        }
    }
}

/// As long as a page of a playlist has items and says that there are more, the next page
/// is asked for, as many items further as there were; the listing ends at the first page
/// that does not, with the tracks of all pages in their order.
#[verifier::spinoff_prover]
#[verifier::rlimit(40)]
pub proof fn law_playlist_is_listed_to_its_end(token: Seq<char>, pages: Seq<JsonValue>, n: nat)
    requires
        listing_to_its_end(pages),
        n <= pages.len(),
    ensures
        data_run(
            ApiStepView::Continue(first_fetch(SpotifyKind::Playlist, Goal::Tracks, token)),
            SpotifyKind::Playlist,
            pages.take(n as int),
        ) == Some(
            if n < pages.len() {
                ApiStepView::Continue(
                    ApiFetchView::PlaylistPage {
                        token,
                        offset: items_on(pages, n),
                        tracks: playlist_tracks_before(pages, n),
                    },
                )
            } else {
                ApiStepView::Done(Ok(OutcomeView::Tracks(playlist_tracks_before(pages, n))))
            },
        ),
{
    lemma_whole_listing(pages);
    law_playlist_listing(token, pages, n);
    if n < pages.len() {
        lemma_listing_is_whole(pages, n);
    }
}

/// The name and the cover of an album are the texts that it has as its name and as the
/// address of its first image.
proof fn lemma_album_texts(album: JsonValue)
    ensures
        text_or_empty(album.text_member("name"@)) == (match album.get("name"@) {
            Some(JsonValue::Text(s)) => s,
            _ => Seq::empty(),
        }),
        album.text_at(image_path()) == (match album.pointer(seq!["images"@, "0"@, "url"@]) {
            Some(JsonValue::Text(s)) => Some(s),
            _ => None,
        }),
{
}

/// As long as a page of an album has items and says that there are more, the next page is
/// asked for, as many items further as there were; the listing ends at the first page that
/// does not, with the tracks of all pages in their order. The name and the cover of the
/// album are the texts that it has as its name and as the address of its first image.
#[verifier::spinoff_prover]
#[verifier::rlimit(50)]
pub proof fn law_album_is_listed_to_its_end(
    token: Seq<char>,
    album: JsonValue,
    pages: Seq<JsonValue>,
    n: nat,
)
    requires
        listing_to_its_end(pages),
        forall|k: int| 0 <= k < pages.len() ==> items_take_album(#[trigger] pages[k]),
        n <= pages.len(),
    ensures
        ({
            let name = match album.get("name"@) {
                Some(JsonValue::Text(s)) => s,
                _ => Seq::empty(),
            };
            let cover = match album.pointer(seq!["images"@, "0"@, "url"@]) {
                Some(JsonValue::Text(s)) => Some(s),
                _ => None,
            };
            data_run(
                ApiStepView::Continue(first_fetch(SpotifyKind::Album, Goal::Tracks, token)),
                SpotifyKind::Album,
                seq![album] + pages.take(n as int),
            ) == Some(
                if n < pages.len() {
                    ApiStepView::Continue(
                        ApiFetchView::AlbumPage {
                            token,
                            name,
                            cover,
                            offset: items_on(pages, n),
                            tracks: album_tracks_before(pages, name, cover, n),
                        },
                    )
                } else {
                    ApiStepView::Done(
                        Ok(OutcomeView::Tracks(album_tracks_before(pages, name, cover, n))),
                    )
                },
            )
        }),
{
    lemma_album_texts(album);
    lemma_whole_listing(pages);
    law_album_listing(token, album, pages, n);
    if n < pages.len() {
        lemma_listing_is_whole(pages, n);
    }
}

/// A page with items and a member `next` that is not null is followed by the request for
/// the page that begins as many items further, with the same token. Any other page ends
/// the import, with the tracks that are there.
#[verifier::spinoff_prover]
#[verifier::rlimit(40)]
pub proof fn law_playlist_page_is_followed(
    id: Seq<char>,
    token: Seq<char>,
    offset: nat,
    tracks: Seq<TrackView>,
    reply: Result<ResponseView, Seq<char>>,
    page: JsonValue,
)
    requires
        api_document(reply) == Ok::<JsonValue, Seq<char>>(page),
        says_more(page) ==> offset + item_count(page) <= u32::MAX,
    ensures
        ({
            let here = at(
                SpotifyKind::Playlist,
                id,
                Goal::Tracks,
                PhaseView::Api(ApiFetchView::PlaylistPage { token, offset, tracks }),
            );
            let all = tracks + playlist_page_tracks(page);
            &&& import_step(here, EventView::Reply(reply)) matches Some(next)
            &&& says_more(page) ==> {
                let further = offset + item_count(page);
                &&& next.phase == PhaseView::Api(
                    ApiFetchView::PlaylistPage { token, offset: further, tracks: all },
                )
                &&& import_action(next) matches ActionView::Fetch(r)
                &&& r.url == "https://api.spotify.com/v1"@ + ("/playlists/"@ + id
                    + "/tracks?offset="@ + decimal_text(further)
                    + "&limit=100&fields=total,next,items(track(id,name,duration_ms,is_local,explicit,artists(name),album(name,images(url))))"@)
                &&& r.headers.contains(("Authorization"@, "Bearer "@ + token))
            }
            &&& !says_more(page) ==> next.phase == PhaseView::Done(Ok(OutcomeView::Tracks(all)))
        }),
{
    law_next_page(page, offset);
    let further = offset + item_count(page);
    law_request_addresses(
        Seq::empty(),
        id,
        Seq::empty(),
        Seq::empty(),
        playlist_tracks_path(id, further),
        token,
    );
}

/// A page with items and a member `next` that is not null is followed by the request for
/// the page that begins as many items further, with the same token. Any other page ends
/// the import, with the tracks that are there.
#[verifier::spinoff_prover]
#[verifier::rlimit(40)]
pub proof fn law_album_page_is_followed(
    id: Seq<char>,
    token: Seq<char>,
    name: Seq<char>,
    cover: Option<Seq<char>>,
    offset: nat,
    tracks: Seq<TrackView>,
    reply: Result<ResponseView, Seq<char>>,
    page: JsonValue,
)
    requires
        api_document(reply) == Ok::<JsonValue, Seq<char>>(page),
        items_take_album(page),
        says_more(page) ==> offset + item_count(page) <= u32::MAX,
    ensures
        ({
            let here = at(
                SpotifyKind::Album,
                id,
                Goal::Tracks,
                PhaseView::Api(ApiFetchView::AlbumPage { token, name, cover, offset, tracks }),
            );
            let all = tracks + album_page_tracks(page, name, cover);
            &&& import_step(here, EventView::Reply(reply)) matches Some(next)
            &&& says_more(page) ==> {
                let further = offset + item_count(page);
                &&& next.phase == PhaseView::Api(
                    ApiFetchView::AlbumPage { token, name, cover, offset: further, tracks: all },
                )
                &&& import_action(next) matches ActionView::Fetch(r)
                &&& r.url == "https://api.spotify.com/v1"@ + ("/albums/"@ + id
                    + "/tracks?offset="@ + decimal_text(further) + "&limit=50"@)
                &&& r.headers.contains(("Authorization"@, "Bearer "@ + token))
            }
            &&& !says_more(page) ==> next.phase == PhaseView::Done(Ok(OutcomeView::Tracks(all)))
        }),
{
    law_next_page(page, offset);
    let further = offset + item_count(page);
    law_request_addresses(
        Seq::empty(),
        id,
        Seq::empty(),
        Seq::empty(),
        album_tracks_path(id, further),
        token,
    );
}

/// A page of the API can be worked on exactly where the next page begins at a place that
/// can be written in 32 bits and, for an album, each item can be given the album. The
/// description of a collection always can.
pub proof fn law_documents_that_fit(
    token: Seq<char>,
    name: Seq<char>,
    cover: Option<Seq<char>>,
    offset: nat,
    tracks: Seq<TrackView>,
    data: JsonValue,
)
    ensures
        data_fits(ApiFetchView::Summary { token }, data),
        data_fits(ApiFetchView::Album { token }, data),
        data_fits(ApiFetchView::PlaylistPage { token, offset, tracks }, data) <==> offset_fits(
            data,
            offset,
        ),
        data_fits(ApiFetchView::AlbumPage { token, name, cover, offset, tracks }, data) <==> (
        offset_fits(data, offset) && items_take_album(data)),
{
}

// ── What is asked of the API, and what becomes of its answers ────────────────

/// Once a token is found, the API is asked with it for the collection: for its
/// description, for the first page of a playlist, or for an album before its tracks.
#[verifier::spinoff_prover]
#[verifier::rlimit(40)]
pub proof fn law_first_request_to_the_api(
    kind: SpotifyKind,
    id: Seq<char>,
    goal: Goal,
    token: Seq<char>,
    searching: Seq<EventView>,
)
    requires
        token_run(TokenStepView::Continue(TokenSearchView::EmbedPage), searching) == Some(
            TokenStepView::Done(Ok(token)),
        ),
    ensures
        import_run(begin(kind, id, goal), searching) matches Some(import) && {
            &&& import_action(import) matches ActionView::Fetch(r)
            &&& r.method == Method::Get
            &&& r.headers.contains(("Authorization"@, "Bearer "@ + token))
            &&& r.url == "https://api.spotify.com/v1"@ + match (kind, goal) {
                (SpotifyKind::Album, _) => "/albums/"@ + id,
                (SpotifyKind::Playlist, Goal::Summary) => "/playlists/"@ + id
                    + "?fields=name,description,owner(display_name),images,tracks(total)"@,
                (SpotifyKind::Playlist, Goal::Tracks) => "/playlists/"@ + id + "/tracks?offset="@
                    + decimal_text(0)
                    + "&limit=100&fields=total,next,items(track(id,name,duration_ms,is_local,explicit,artists(name),album(name,images(url))))"@,
            }
        },
{
    lemma_follows_token_search(kind, id, goal, TokenSearchView::EmbedPage, searching);
    let none = Seq::<char>::empty();
    law_request_addresses(none, id, none, none, album_info_path(id), token);
    law_request_addresses(none, id, none, none, playlist_info_path(id), token);
    law_request_addresses(none, id, none, none, playlist_tracks_path(id, 0), token);
}

/// The answer of the API to the request for the description of a collection is the
/// outcome: the description of a playlist or of an album, as the collection is one.
pub proof fn law_description_by_the_api(
    kind: SpotifyKind,
    id: Seq<char>,
    token: Seq<char>,
    reply: Result<ResponseView, Seq<char>>,
    data: JsonValue,
)
    requires
        api_document(reply) == Ok::<JsonValue, Seq<char>>(data),
    ensures
        import_step(
            at(kind, id, Goal::Summary, PhaseView::Api(ApiFetchView::Summary { token })),
            EventView::Reply(reply),
        ) == Some(
            at(
                kind,
                id,
                Goal::Summary,
                PhaseView::Done(
                    Ok(
                        OutcomeView::Summary(
                            if kind == SpotifyKind::Playlist {
                                api_playlist(data)
                            } else {
                                api_album(data)
                            },
                        ),
                    ),
                ),
            ),
        ),
{
}

/// Where the API answers with an error, or does not answer, the embed page of the
/// collection is asked for, and the error is kept.
pub proof fn law_api_error_is_kept(
    kind: SpotifyKind,
    id: Seq<char>,
    goal: Goal,
    fetch: ApiFetchView,
    reply: Result<ResponseView, Seq<char>>,
    message: Seq<char>,
)
    requires
        api_document(reply) == Err::<JsonValue, Seq<char>>(message),
    ensures
        import_step(at(kind, id, goal, PhaseView::Api(fetch)), EventView::Reply(reply)) == Some(
            at(kind, id, goal, PhaseView::Embed { api_error: message }),
        ),
        import_action(at(kind, id, goal, PhaseView::Embed { api_error: message }))
            == ActionView::Fetch(embed_page_request(kind.word(), id)),
        import_action(at(kind, id, goal, PhaseView::Embed { api_error: message })) matches ActionView::Fetch(
            r,
        ) && r.url == "https://open.spotify.com/embed/"@ + kind.word() + "/"@ + id,
{
}

// ── The embed page in the place of the API ───────────────────────────────────

/// The collection in embedded data is what stands in the state of the page as the entity
/// of its data.
pub proof fn law_embedded_entity(
    reply: Result<ResponseView, Seq<char>>,
    html: Seq<char>,
    next_data: JsonValue,
    message: Seq<char>,
)
    ensures
        embed_html(reply) == Ok::<Seq<char>, Seq<char>>(html) && payload_document(html) == Some(
            next_data,
        ) ==> embed_reply_entity(reply) == match next_data.pointer(
            seq!["props"@, "pageProps"@, "state"@, "data"@, "entity"@],
        ) {
            Some(entity) => Ok(entity),
            None => Err("Embed entity not found in __NEXT_DATA__ payload"@),
        },
        embed_html(reply) == Ok::<Seq<char>, Seq<char>>(html) && payload_document(html) is None
            ==> embed_reply_entity(reply) == Err::<JsonValue, Seq<char>>(
            "Could not parse embed __NEXT_DATA__ payload"@,
        ),
        embed_html(reply) == Err::<Seq<char>, Seq<char>>(message) ==> embed_reply_entity(reply)
            == Err::<JsonValue, Seq<char>>(message),
{
}

/// An embed page without the collection ends the import with an error that words both why
/// the API failed and why the embed page did.
pub proof fn law_both_ways_fail(
    kind: SpotifyKind,
    id: Seq<char>,
    goal: Goal,
    api_error: Seq<char>,
    reply: Result<ResponseView, Seq<char>>,
    embed_error: Seq<char>,
)
    requires
        embed_reply_entity(reply) == Err::<JsonValue, Seq<char>>(embed_error),
    ensures
        import_step(
            at(kind, id, goal, PhaseView::Embed { api_error }),
            EventView::Reply(reply),
        ) == Some(
            at(
                kind,
                id,
                goal,
                PhaseView::Done(
                    Err(
                        "API failed: "@ + api_error + "; embed fallback failed: "@ + embed_error,
                    ),
                ),
            ),
        ),
{
}

/// What the embed page says of the collection is the outcome where what is searched is the
/// description: that of a playlist or of an album, as the collection is one.
pub proof fn law_description_by_the_embed_page(
    kind: SpotifyKind,
    id: Seq<char>,
    api_error: Seq<char>,
    reply: Result<ResponseView, Seq<char>>,
    entity: JsonValue,
)
    requires
        embed_reply_entity(reply) == Ok::<JsonValue, Seq<char>>(entity),
    ensures
        import_step(
            at(kind, id, Goal::Summary, PhaseView::Embed { api_error }),
            EventView::Reply(reply),
        ) == Some(
            at(
                kind,
                id,
                Goal::Summary,
                PhaseView::Done(
                    Ok(
                        OutcomeView::Summary(
                            if kind == SpotifyKind::Playlist {
                                embed_playlist(entity)
                            } else {
                                embed_album(entity)
                            },
                        ),
                    ),
                ),
            ),
        ),
{
}

/// `track` has the album and the cover that `item` itself names, and those that are given
/// only where `item` names none.
pub open spec fn album_and_cover_from(
    track: TrackView,
    item: JsonValue,
    album: Option<Seq<char>>,
    cover: Option<Seq<char>>,
) -> bool {
    &&& track.album_title == match item.pointer(seq!["album"@, "name"@]) {
        Some(JsonValue::Text(name)) => Some(name),
        _ => album,
    }
    &&& track.thumbnail_url == match item.pointer(seq!["album"@, "images"@, "0"@, "url"@]) {
        Some(JsonValue::Text(url)) => Some(url),
        _ => match item.pointer(seq!["visualIdentity"@, "image"@, "0"@, "url"@]) {
            Some(JsonValue::Text(url)) => Some(url),
            _ => cover,
        },
    }
}

/// Every track that embedded data lists comes from an item of the list, with the album and
/// the cover of that item, or those that are given.
proof fn lemma_listed_tracks(
    entity: JsonValue,
    items: Seq<JsonValue>,
    album: Option<Seq<char>>,
    cover: Option<Seq<char>>,
    k: int,
)
    requires
        entity.get("trackList"@) == Some(JsonValue::Array(items)),
        0 <= k < embed_list_tracks(entity, album, cover).len(),
    ensures
        exists|i: int|
            0 <= i < items.len() && embed_track(#[trigger] items[i], album, cover) == Some(
                embed_list_tracks(entity, album, cover)[k],
            ) && album_and_cover_from(
                embed_list_tracks(entity, album, cover)[k],
                items[i],
                album,
                cover,
            ),
{
    let a = items.map_values(|item: JsonValue| embed_track(item, album, cover));
    lemma_somes_from(a, k);
    let i = choose|i: int| 0 <= i < a.len() && #[trigger] a[i] == Some(somes(a)[k]);
    law_embed_track_fields(items[i], album, cover);
    assert(embed_track(items[i], album, cover) == Some(somes(a)[k]));
}

/// Where the tracks of a playlist come from the embed page, each has the album and the
/// cover that its own item names, and none where it names none: the name and the images of
/// the playlist do not enter.
#[verifier::spinoff_prover]
#[verifier::rlimit(40)]
pub proof fn law_playlist_tracks_by_the_embed_page(
    id: Seq<char>,
    api_error: Seq<char>,
    reply: Result<ResponseView, Seq<char>>,
    entity: JsonValue,
    items: Seq<JsonValue>,
)
    requires
        embed_reply_entity(reply) == Ok::<JsonValue, Seq<char>>(entity),
        entity.get("trackList"@) == Some(JsonValue::Array(items)),
    ensures
        ({
            let here = at(
                SpotifyKind::Playlist,
                id,
                Goal::Tracks,
                PhaseView::Embed { api_error },
            );
            &&& import_step(here, EventView::Reply(reply)) matches Some(next)
            &&& next.phase matches PhaseView::Done(Ok(OutcomeView::Tracks(tracks)))
            &&& tracks == embed_list_tracks(entity, None, None)
            &&& forall|k: int|
                0 <= k < tracks.len() ==> exists|i: int|
                    0 <= i < items.len() && embed_track(#[trigger] items[i], None, None) == Some(
                        #[trigger] tracks[k],
                    ) && album_and_cover_from(tracks[k], items[i], None, None)
        }),
{
    let tracks = embed_list_tracks(entity, None, None);
    assert forall|k: int| 0 <= k < tracks.len() implies exists|i: int|
        0 <= i < items.len() && embed_track(#[trigger] items[i], None, None) == Some(
            #[trigger] tracks[k],
        ) && album_and_cover_from(tracks[k], items[i], None, None) by {
        lemma_listed_tracks(entity, items, None, None, k);
    }
}

/// Where the tracks of an album come from the embed page, each has the album and the cover
/// that its own item names, and those of the album where it names none.
#[verifier::spinoff_prover]
#[verifier::rlimit(40)]
pub proof fn law_album_tracks_by_the_embed_page(
    id: Seq<char>,
    api_error: Seq<char>,
    reply: Result<ResponseView, Seq<char>>,
    entity: JsonValue,
    items: Seq<JsonValue>,
    name: Option<Seq<char>>,
    cover: Option<Seq<char>>,
)
    requires
        embed_reply_entity(reply) == Ok::<JsonValue, Seq<char>>(entity),
        entity.get("trackList"@) == Some(JsonValue::Array(items)),
        name == match (match entity.get("name"@) {
            Some(name) => Some(name),
            None => entity.get("title"@),
        }) {
            Some(JsonValue::Text(s)) => Some(s),
            _ => None,
        },
        cover == match entity.pointer(seq!["images"@, "0"@, "url"@]) {
            Some(JsonValue::Text(s)) => Some(s),
            _ => match entity.pointer(seq!["visualIdentity"@, "image"@, "0"@, "url"@]) {
                Some(JsonValue::Text(s)) => Some(s),
                _ => None,
            },
        },
    ensures
        ({
            let here = at(SpotifyKind::Album, id, Goal::Tracks, PhaseView::Embed { api_error });
            &&& import_step(here, EventView::Reply(reply)) matches Some(next)
            &&& next.phase matches PhaseView::Done(Ok(OutcomeView::Tracks(tracks)))
            &&& tracks == embed_list_tracks(entity, name, cover)
            &&& forall|k: int|
                0 <= k < tracks.len() ==> exists|i: int|
                    0 <= i < items.len() && embed_track(#[trigger] items[i], name, cover) == Some(
                        #[trigger] tracks[k],
                    ) && album_and_cover_from(tracks[k], items[i], name, cover)
        }),
{
    law_album_enters(entity, name, cover);
    let tracks = embed_list_tracks(entity, name, cover);
    assert forall|k: int| 0 <= k < tracks.len() implies exists|i: int|
        0 <= i < items.len() && embed_track(#[trigger] items[i], name, cover) == Some(
            #[trigger] tracks[k],
        ) && album_and_cover_from(tracks[k], items[i], name, cover) by {
        lemma_listed_tracks(entity, items, name, cover, k);
    }
}

/// An embed page whose collection has no list of tracks yields no tracks.
pub proof fn law_no_tracks_by_the_embed_page(
    kind: SpotifyKind,
    id: Seq<char>,
    api_error: Seq<char>,
    reply: Result<ResponseView, Seq<char>>,
    entity: JsonValue,
)
    requires
        embed_reply_entity(reply) == Ok::<JsonValue, Seq<char>>(entity),
        !(entity.get("trackList"@) matches Some(JsonValue::Array(_))),
    ensures
        import_step(
            at(kind, id, Goal::Tracks, PhaseView::Embed { api_error }),
            EventView::Reply(reply),
        ) == Some(
            at(kind, id, Goal::Tracks, PhaseView::Done(Ok(OutcomeView::Tracks(Seq::empty())))),
        ),
{
}

/// The import of a link begins with the search for a token, for the collection that the
/// link refers to.
#[verifier::spinoff_prover]
#[verifier::rlimit(40)]
pub proof fn law_import_begins(url: Seq<char>, goal: Goal, kind: SpotifyKind, id: Seq<char>)
    requires
        link_target(url) == Some((kind, id)),
    ensures
        ({
            &&& begin_url(url, goal) matches Ok(import)
            &&& import.kind == kind
            &&& import.id == id
            &&& import.goal == goal
            &&& import_action(import) matches ActionView::Fetch(r)
            &&& r.url == "https://open.spotify.com/embed/"@ + kind.word() + "/"@ + id
        }),
        begin_url(url, goal) == Ok::<ImportView, Seq<char>>(begin(kind, id, goal)),
{
}

/// The models of an import and of its outcome have what they have.
pub proof fn law_import_model(
    import: Import,
    outcome: Outcome,
    message: String,
    step: ApiStep,
)
    ensures
        import@.kind == import.kind,
        import@.id == import.id@,
        import@.goal == import.goal,
        import.phase matches Phase::Token(search) ==> import@.phase == PhaseView::Token(search@),
        import.phase matches Phase::Api(fetch) ==> import@.phase == PhaseView::Api(fetch@),
        import.phase matches Phase::Embed { api_error } ==> import@.phase == (PhaseView::Embed {
            api_error: api_error@,
        }),
        import.phase matches Phase::Done(Ok(o)) ==> import@.phase == PhaseView::Done(Ok(o@)),
        import.phase matches Phase::Done(Err(m)) ==> import@.phase == PhaseView::Done(Err(m@)),
        outcome matches Outcome::Summary(s) ==> outcome@ == OutcomeView::Summary(s@),
        outcome matches Outcome::Tracks(t) ==> outcome@ == OutcomeView::Tracks(t@),
        outcome_result(Ok(outcome)) == Ok::<OutcomeView, Seq<char>>(outcome@),
        outcome_result(Err(message)) == Err::<OutcomeView, Seq<char>>(message@),
        import_result(Ok(import)) == Ok::<ImportView, Seq<char>>(import@),
        import_result(Err(message)) == Err::<ImportView, Seq<char>>(message@),
        opt_import(Some(import)) == Some(import@) && opt_import(None) is None,
        opt_api_step(Some(step)) == Some(step@) && opt_api_step(None) is None,
        step matches ApiStep::Continue(fetch) ==> step@ == ApiStepView::Continue(fetch@),
        step matches ApiStep::Done(Ok(o)) ==> step@ == ApiStepView::Done(Ok(o@)),
        step matches ApiStep::Done(Err(m)) ==> step@ == ApiStepView::Done(Err(m@)),
{
}

/// What an import asks of the API names the collection, the place in the listing and the
/// token, and nothing else of what the import holds.
pub proof fn law_requests_to_the_api(
    kind: SpotifyKind,
    id: Seq<char>,
    goal: Goal,
    token: Seq<char>,
    name: Seq<char>,
    cover: Option<Seq<char>>,
    offset: nat,
    tracks: Seq<TrackView>,
)
    ensures
        import_action(at(kind, id, goal, PhaseView::Api(ApiFetchView::Summary { token })))
            == ActionView::Fetch(
            api_path_request(
                if kind == SpotifyKind::Playlist {
                    "/playlists/"@ + id
                        + "?fields=name,description,owner(display_name),images,tracks(total)"@
                } else {
                    "/albums/"@ + id
                },
                token,
            ),
        ),
        import_action(at(kind, id, goal, PhaseView::Api(ApiFetchView::Album { token })))
            == ActionView::Fetch(api_path_request("/albums/"@ + id, token)),
        import_action(
            at(kind, id, goal, PhaseView::Api(ApiFetchView::PlaylistPage { token, offset, tracks })),
        ) == ActionView::Fetch(
            api_path_request(
                "/playlists/"@ + id + "/tracks?offset="@ + decimal_text(offset)
                    + "&limit=100&fields=total,next,items(track(id,name,duration_ms,is_local,explicit,artists(name),album(name,images(url))))"@,
                token,
            ),
        ),
        import_action(
            at(
                kind,
                id,
                goal,
                PhaseView::Api(ApiFetchView::AlbumPage { token, name, cover, offset, tracks }),
            ),
        ) == ActionView::Fetch(
            api_path_request(
                "/albums/"@ + id + "/tracks?offset="@ + decimal_text(offset) + "&limit=50"@,
                token,
            ),
        ),
{
}

/// While a token is searched an import asks for what the search asks for, and takes over
/// what the search comes to.
#[verifier::spinoff_prover]
#[verifier::rlimit(40)]
pub proof fn law_import_searches_token(
    kind: SpotifyKind,
    id: Seq<char>,
    goal: Goal,
    search: TokenSearchView,
    event: EventView,
)
    ensures
        ({
            let here = at(kind, id, goal, PhaseView::Token(search));
            &&& import_action(here) == token_action(search, kind.word(), id)
            &&& match token_step(search, event) {
                Some(TokenStepView::Continue(next)) => import_step(here, event) == Some(
                    at(kind, id, goal, PhaseView::Token(next)),
                ),
                Some(TokenStepView::Done(Err(message))) => import_step(here, event) == Some(
                    at(kind, id, goal, PhaseView::Embed { api_error: message }),
                ),
                Some(TokenStepView::Done(Ok(token))) => import_step(here, event) matches Some(next)
                    && next.kind == kind && next.id == id && next.goal == goal && match next.phase {
                    PhaseView::Api(ApiFetchView::Summary { token: t }) => goal == Goal::Summary && t
                        == token,
                    PhaseView::Api(ApiFetchView::PlaylistPage { token: t, offset, tracks }) => {
                        &&& goal == Goal::Tracks
                        &&& kind == SpotifyKind::Playlist
                        &&& t == token
                        &&& offset == 0
                        &&& tracks.len() == 0
                    },
                    PhaseView::Api(ApiFetchView::Album { token: t }) => goal == Goal::Tracks && kind
                        == SpotifyKind::Album && t == token,
                    _ => false,
                },
                None => import_step(here, event) is None,
            }
        }),
{
}

} // verus!
