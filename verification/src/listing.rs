//! From JSON to lists of tracks: the pages of the API, and the track lists in
//! embedded data.

use vstd::prelude::*;

use crate::collection::{first_image, image_path, low32, truncate};
use crate::json::{
    json_views, lemma_array_view, lemma_object_view, member_of, member_views, opt_str, opt_string,
    or_else, token_index, Json, JsonValue,
};
use crate::model::{track_views, TrackItem, TrackView};
use crate::numeral::numeral_value;
use crate::track::{
    album_image_path, album_name_path, api_track, embed_name, embed_track, first_str,
    identity_image, identity_image_path, law_api_track_sound, law_embed_track_sound,
    lemma_somes_between, lemma_somes_from, name_in_embed, one_or_none, opt_track, parse_api_track,
    parse_embed_track, somes, track_is_sound,
};

verus! {

// ── Pages of the API ─────────────────────────────────────────────────────────

/// Where the next page begins: none where this page has no items, or says that
/// it is the last.
pub open spec fn next_offset(data: JsonValue, offset: nat) -> Option<nat> {
    match data.array_member("items"@) {
        Some(items) => if items.len() > 0 && data.get("next"@) is Some && !(data.get("next"@)->0 is Null) {
            Some(offset + low32(items.len()) as nat)
        } else {
            None
        },
        None => None,
    }
}

/// The track that an item of a playlist page holds: none where it holds none, or
/// a file on the machine of the owner.
pub open spec fn playlist_item_track(item: JsonValue) -> Option<TrackView> {
    match item.get("track"@) {
        Some(track) => if track.bool_member("is_local"@) == Some(true) {
            None
        } else {
            api_track(track)
        },
        None => None,
    }
}

/// The tracks on a page of a playlist.
pub open spec fn playlist_page_tracks(data: JsonValue) -> Seq<TrackView> {
    match data.array_member("items"@) {
        Some(items) => somes(items.map_values(|item: JsonValue| playlist_item_track(item))),
        None => Seq::empty(),
    }
}

/// What a page of tracks yields: its tracks, and where the next page begins.
#[derive(Debug, PartialEq, Eq)]
pub struct Page {
    pub tracks: Vec<TrackItem>,
    pub next_offset: Option<u32>,
}

/// The number that `o` holds.
pub open spec fn opt_nat(o: Option<u32>) -> Option<nat> {
    match o {
        Some(n) => Some(n as nat),
        None => None,
    }
}

/// The place of the next page can be written as a number of 32 bits.
pub open spec fn offset_fits(data: JsonValue, offset: nat) -> bool {
    next_offset(data, offset) matches Some(n) ==> n <= u32::MAX
}

/// Where the page after `data` begins.
fn offset_after(data: &Json, offset: u32) -> (r: Option<u32>)
    requires
        offset_fits(data@, offset as nat),
    ensures
        opt_nat(r) == next_offset(data@, offset as nat),
{
    match data.array_member("items") {
        Some(items) => {
            if items.len() == 0 {
                return None;
            }
            match data.get("next") {
                Some(next) => if next.is_null() {
                    None
                } else {
                    Some(offset + truncate(items.len() as u64))
                },
                None => None,
            }
        },
        None => None,
    }
}

/// The track that `item` of a playlist page holds.
fn track_of_playlist_item(item: &Json) -> (r: Option<TrackItem>)
    ensures
        opt_track(r) == playlist_item_track(item@),
{
    match item.get("track") {
        Some(track) => {
            let local: bool = match track.bool_member("is_local") {
                Some(b) => b,
                None => false,
            };
            if local {
                None
            } else {
                parse_api_track(track)
            }
        },
        None => None,
    }
}

/// The page of a playlist that `data` holds, which begins at `offset`.
pub fn read_playlist_page(data: &Json, offset: u32) -> (r: Page)
    requires
        offset_fits(data@, offset as nat),
    ensures
        track_views(r.tracks@) == playlist_page_tracks(data@),
        opt_nat(r.next_offset) == next_offset(data@, offset as nat),
{
    let mut tracks: Vec<TrackItem> = Vec::new();
    if let Some(items) = data.array_member("items") {
        let ghost found = json_views(items@).map_values(|item: JsonValue| playlist_item_track(item));
        let mut i: usize = 0;
        while i < items.len()
            invariant
                i <= items.len(),
                found == json_views(items@).map_values(|item: JsonValue| playlist_item_track(item)),
                track_views(tracks@) == somes(found.take(i as int)),
            decreases items.len() - i,
        {
            let ghost before = tracks@;
            assert(found.take(i + 1).drop_last() == found.take(i as int));
            assert(found[i as int] == playlist_item_track(items@[i as int]@));
            if let Some(track) = track_of_playlist_item(&items[i]) {
                tracks.push(track);
                assert(track_views(tracks@) == track_views(before).push(track@));
            }
            i = i + 1;
        }
        assert(found.take(i as int) == found);
    }
    assert(data@.array_member("items"@) is None ==> track_views(tracks@) == Seq::<TrackView>::empty());
    Page { tracks, next_offset: offset_after(data, offset) }
}

// ── Pages of an album ────────────────────────────────────────────────────────

/// How a track names its album, as the API would write it: the name, and a list
/// with the cover, which is empty where there is none.
pub open spec fn album_object(name: Seq<char>, cover: Option<Seq<char>>) -> JsonValue {
    let images = match cover {
        Some(url) => seq![JsonValue::Object(seq![("url"@, JsonValue::Text(url))])],
        None => Seq::empty(),
    };
    JsonValue::Object(seq![("name"@, JsonValue::Text(name)), ("images"@, JsonValue::Array(images))])
}

/// `track` can be given a member: it is an object, or null in the place of an
/// empty one.
pub open spec fn takes_members(track: JsonValue) -> bool {
    track is Object || track is Null
}

/// `track` with the given album, unless it names one itself.
pub open spec fn with_album(
    track: JsonValue,
    name: Seq<char>,
    cover: Option<Seq<char>>,
) -> JsonValue {
    match track {
        JsonValue::Object(members) => if member_of(members, "album"@) is Some {
            track
        } else {
            JsonValue::Object(members.push(("album"@, album_object(name, cover))))
        },
        JsonValue::Null => JsonValue::Object(seq![("album"@, album_object(name, cover))]),
        _ => track,
    }
}

/// The tracks on a page of an album with the given name and cover.
pub open spec fn album_page_tracks(
    data: JsonValue,
    name: Seq<char>,
    cover: Option<Seq<char>>,
) -> Seq<TrackView> {
    match data.array_member("items"@) {
        Some(items) => somes(
            items.map_values(|track: JsonValue| api_track(with_album(track, name, cover))),
        ),
        None => Seq::empty(),
    }
}

/// Every item on a page can be given an album.
pub open spec fn items_take_album(data: JsonValue) -> bool {
    data.array_member("items"@) matches Some(items) ==> forall|i: int|
        0 <= i < items.len() ==> takes_members(#[trigger] items[i])
}

/// The album with the given name and cover, as the API would write it.
fn album_json(name: &str, cover: &Option<String>) -> (r: Json)
    ensures
        r@ == album_object(name@, opt_string(*cover)),
{
    broadcast use {lemma_array_view, lemma_object_view};
    let mut images: Vec<Json> = Vec::new();
    if let Some(url) = cover {
        let mut image: Vec<(String, Json)> = Vec::new();
        let address = Json::Text(url.clone());
        image.push(("url".to_string(), address));
        assert(member_views(image@) == seq![("url"@, JsonValue::Text(url@))]);
        let item = Json::Object(image);
        images.push(item);
        assert(json_views(images@) == seq![item@]);
    } else {
        assert(json_views(images@) == Seq::<JsonValue>::empty());
    }
    let mut album: Vec<(String, Json)> = Vec::new();
    let title = Json::Text(name.to_string());
    let list = Json::Array(images);
    album.push(("name".to_string(), title));
    album.push(("images".to_string(), list));
    assert(member_views(album@) == seq![("name"@, title@), ("images"@, list@)]);
    Json::Object(album)
}

/// `track` with the given album, unless it names one itself.
fn give_album(track: &Json, name: &str, cover: &Option<String>) -> (r: Json)
    requires
        takes_members(track@),
    ensures
        r@ == with_album(track@, name@, opt_string(*cover)),
{
    broadcast use {lemma_array_view, lemma_object_view};
    if track.get("album").is_some() {
        return track.clone();
    }
    let copy: Json = track.clone();
    let mut members: Vec<(String, Json)> = match copy {
        Json::Object(members) => members,
        _ => Vec::new(),
    };
    let ghost before = members@;
    let album = album_json(name, cover);
    members.push(("album".to_string(), album));
    assert(member_views(members@) == member_views(before).push(("album"@, album@)));
    proof {
        if track@ is Null {
            assert(member_views(members@) == seq![("album"@, album@)]);
        }
    }
    Json::Object(members)
}

/// Whether every item on the page `data` can be given an album.
pub fn album_items_ok(data: &Json) -> (r: bool)
    ensures
        r == items_take_album(data@),
{
    broadcast use {lemma_array_view, lemma_object_view};
    if let Some(items) = data.array_member("items") {
        let mut i: usize = 0;
        while i < items.len()
            invariant
                i <= items.len(),
                data@.array_member("items"@) == Some(json_views(items@)),
                forall|j: int| 0 <= j < i ==> takes_members(#[trigger] json_views(items@)[j]),
            decreases items.len() - i,
        {
            assert(json_views(items@)[i as int] == items@[i as int]@);
            let ok: bool = match &items[i] {
                Json::Object(_) => true,
                Json::Null => true,
                _ => false,
            };
            if !ok {
                let ghost all = data@.array_member("items"@)->0;
                assert(!takes_members(all[i as int]));
                return false;
            }
            i = i + 1;
        }
    }
    true
}

/// The page of an album that `data` holds, which begins at `offset`.
pub fn read_album_page(data: &Json, name: &str, cover: &Option<String>, offset: u32) -> (r: Page)
    requires
        offset_fits(data@, offset as nat),
        items_take_album(data@),
    ensures
        track_views(r.tracks@) == album_page_tracks(data@, name@, opt_string(*cover)),
        opt_nat(r.next_offset) == next_offset(data@, offset as nat),
{
    let mut tracks: Vec<TrackItem> = Vec::new();
    let ghost album = opt_string(*cover);
    if let Some(items) = data.array_member("items") {
        let ghost found = json_views(items@).map_values(
            |track: JsonValue| api_track(with_album(track, name@, album)),
        );
        let mut i: usize = 0;
        while i < items.len()
            invariant
                i <= items.len(),
                album == opt_string(*cover),
                forall|j: int|
                    0 <= j < json_views(items@).len() ==> takes_members(
                        #[trigger] json_views(items@)[j],
                    ),
                found == json_views(items@).map_values(
                    |track: JsonValue| api_track(with_album(track, name@, album)),
                ),
                track_views(tracks@) == somes(found.take(i as int)),
            decreases items.len() - i,
        {
            let ghost before = tracks@;
            assert(found.take(i + 1).drop_last() == found.take(i as int));
            assert(json_views(items@)[i as int] == items@[i as int]@);
            assert(found[i as int] == api_track(with_album(items@[i as int]@, name@, album)));
            let normalized = give_album(&items[i], name, cover);
            if let Some(track) = parse_api_track(&normalized) {
                tracks.push(track);
                assert(track_views(tracks@) == track_views(before).push(track@));
            }
            i = i + 1;
        }
        assert(found.take(i as int) == found);
    }
    assert(data@.array_member("items"@) is None ==> track_views(tracks@) == Seq::<TrackView>::empty());
    Page { tracks, next_offset: offset_after(data, offset) }
}

/// Whether the place of the page after `data`, which begins at `offset`, can be
/// written as a number of 32 bits.
pub fn next_offset_ok(data: &Json, offset: u32) -> (r: bool)
    ensures
        r == offset_fits(data@, offset as nat),
{
    match data.array_member("items") {
        Some(items) => {
            if items.len() == 0 {
                return true;
            }
            match data.get("next") {
                Some(next) => next.is_null() || offset <= u32::MAX - truncate(items.len() as u64),
                None => true,
            }
        },
        None => true,
    }
}

// ── Track lists in embedded data ─────────────────────────────────────────────

/// The tracks that embedded data lists, with the given name and cover for those
/// that do not say what their album is.
pub open spec fn embed_list_tracks(
    entity: JsonValue,
    album: Option<Seq<char>>,
    cover: Option<Seq<char>>,
) -> Seq<TrackView> {
    match entity.array_member("trackList"@) {
        Some(items) => somes(items.map_values(|item: JsonValue| embed_track(item, album, cover))),
        None => Seq::empty(),
    }
}

/// The tracks of the playlist that `entity` describes in embedded data.
pub open spec fn embed_playlist_tracks(entity: JsonValue) -> Seq<TrackView> {
    embed_list_tracks(entity, None, None)
}

/// The tracks of the album that `entity` describes in embedded data.
pub open spec fn embed_album_tracks(entity: JsonValue) -> Seq<TrackView> {
    embed_list_tracks(
        entity,
        embed_name(entity),
        or_else(entity.text_at(image_path()), entity.text_at(identity_image_path())),
    )
}

/// The tracks that `entity` lists.
fn read_embed_list(entity: &Json, album: Option<&str>, cover: Option<&str>) -> (r: Vec<TrackItem>)
    ensures
        track_views(r@) == embed_list_tracks(entity@, opt_str(album), opt_str(cover)),
{
    let mut tracks: Vec<TrackItem> = Vec::new();
    let ghost (a, c) = (opt_str(album), opt_str(cover));
    if let Some(items) = entity.array_member("trackList") {
        let ghost found = json_views(items@).map_values(|item: JsonValue| embed_track(item, a, c));
        let mut i: usize = 0;
        while i < items.len()
            invariant
                i <= items.len(),
                a == opt_str(album),
                c == opt_str(cover),
                found == json_views(items@).map_values(|item: JsonValue| embed_track(item, a, c)),
                track_views(tracks@) == somes(found.take(i as int)),
            decreases items.len() - i,
        {
            let ghost before = tracks@;
            assert(found.take(i + 1).drop_last() == found.take(i as int));
            assert(found[i as int] == embed_track(items@[i as int]@, a, c));
            if let Some(track) = parse_embed_track(&items[i], album, cover) {
                tracks.push(track);
                assert(track_views(tracks@) == track_views(before).push(track@));
            }
            i = i + 1;
        }
        assert(found.take(i as int) == found);
    }
    assert(entity@.array_member("trackList"@) is None ==> track_views(tracks@) == Seq::<TrackView>::empty());
    tracks
}

/// The tracks of the playlist that `entity` describes in embedded data.
pub fn get_playlist_tracks_via_embed(entity: &Json) -> (r: Vec<TrackItem>)
    ensures
        track_views(r@) == embed_playlist_tracks(entity@),
{
    read_embed_list(entity, None, None)
}

/// The tracks of the album that `entity` describes in embedded data.
pub fn get_album_tracks_via_embed(entity: &Json) -> (r: Vec<TrackItem>)
    ensures
        track_views(r@) == embed_album_tracks(entity@),
{
    let album = name_in_embed(entity);
    let cover = first_str(first_image(entity), identity_image(entity));
    read_embed_list(entity, album, cover)
}

// ── Laws ─────────────────────────────────────────────────────────────────────

/// A member that is added behind the others is found where its key was free, and
/// changes nothing under other keys.
proof fn lemma_member_push(
    members: Seq<(Seq<char>, JsonValue)>,
    added: (Seq<char>, JsonValue),
    key: Seq<char>,
)
    requires
        member_of(members, added.0) is None,
    ensures
        member_of(members.push(added), key) == if key == added.0 {
            Some(added.1)
        } else {
            member_of(members, key)
        },
    decreases members.len(),
{
    if members.len() > 0 {
        assert(members.push(added).skip(1) == members.skip(1).push(added));
        if members[0].0 != key {
            lemma_member_push(members.skip(1), added, key);
        }
    } else {
        assert(members.push(added)[0] == added);
        assert(members.push(added).skip(1) == members);
    }
}

/// The path token `0` names the first item of an array.
proof fn lemma_first_token()
    ensures
        token_index("0"@) == Some(0nat),
{
    reveal_strlit("0");
    assert("0"@.drop_last() == Seq::<char>::empty());
    reveal_with_fuel(numeral_value, 2);
}

/// A track that names no album is given the name and the cover of the album it is
/// listed in, and keeps all its other members.
#[verifier::spinoff_prover]
#[verifier::rlimit(40)]
pub proof fn law_album_is_given(track: JsonValue, name: Seq<char>, cover: Option<Seq<char>>)
    requires
        takes_members(track),
        track.get("album"@) is None,
    ensures
        with_album(track, name, cover).text_at(album_name_path()) == Some(name),
        with_album(track, name, cover).text_at(album_image_path()) == cover,
        forall|key: Seq<char>|
            key != "album"@ ==> #[trigger] with_album(track, name, cover).get(key) == track.get(key),
{
    reveal_strlit("name");
    reveal_strlit("images");
    reveal_strlit("url");
    let album = album_object(name, cover);
    let given = with_album(track, name, cover);
    let members = match track {
        JsonValue::Object(members) => members,
        _ => Seq::empty(),
    };
    assert(given->Object_0 == members.push(("album"@, album)));
    lemma_member_push(members, ("album"@, album), "album"@);
    assert(given.follow("album"@) == Some(album));
    assert forall|key: Seq<char>| key != "album"@ implies #[trigger] given.get(key) == track.get(
        key,
    ) by {
        lemma_member_push(members, ("album"@, album), key);
    }
    // The name.
    let rest = album_name_path().skip(1);
    assert(rest == seq!["name"@]);
    assert(rest.skip(1) == Seq::<Seq<char>>::empty());
    assert(album.follow("name"@) == Some(JsonValue::Text(name)));
    reveal_with_fuel(JsonValue::pointer, 5);
    // The cover.
    assert("name"@.len() != "images"@.len());
    let images = match cover {
        Some(url) => seq![JsonValue::Object(seq![("url"@, JsonValue::Text(url))])],
        None => Seq::empty(),
    };
    let fields = seq![("name"@, JsonValue::Text(name)), ("images"@, JsonValue::Array(images))];
    assert(album == JsonValue::Object(fields));
    assert(member_of(fields.skip(1), "images"@) == Some(JsonValue::Array(images))) by {
        assert(fields.skip(1)[0] == fields[1]);
    }
    assert(album.follow("images"@) == Some(JsonValue::Array(images)));
    lemma_first_token();
    let rest1 = album_image_path().skip(1);
    let rest2 = rest1.skip(1);
    let rest3 = rest2.skip(1);
    let rest4 = rest3.skip(1);
    assert(rest1 == seq!["images"@, "0"@, "url"@]);
    assert(rest2 == seq!["0"@, "url"@]);
    assert(rest3 == seq!["url"@]);
    assert(rest4 == Seq::<Seq<char>>::empty());
    match cover {
        Some(url) => {
            let image = images[0];
            assert(image.follow("url"@) == Some(JsonValue::Text(url)));
            assert(JsonValue::Array(images).follow("0"@) == Some(image));
        },
        None => {
            assert(JsonValue::Array(images).follow("0"@) is None);
        },
    }
}

/// A key under which nothing is found stands at no member.
proof fn lemma_key_is_free(members: Seq<(Seq<char>, JsonValue)>, key: Seq<char>)
    requires
        member_of(members, key) is None,
    ensures
        forall|i: int| 0 <= i < members.len() ==> (#[trigger] members[i]).0 != key,
    decreases members.len(),
{
    if members.len() > 0 {
        lemma_key_is_free(members.skip(1), key);
        assert forall|i: int| 0 <= i < members.len() implies (#[trigger] members[i]).0 != key by {
            if i > 0 {
                assert(members.skip(1)[i - 1] == members[i]);
            }
        }
    }
}

/// Giving a track its album leaves no key twice.
pub proof fn law_album_leaves_well_formed(
    track: JsonValue,
    name: Seq<char>,
    cover: Option<Seq<char>>,
)
    requires
        track.well_formed(),
    ensures
        with_album(track, name, cover).well_formed(),
{
    reveal_strlit("name");
    reveal_strlit("images");
    assert("name"@.len() != "images"@.len());
    let album = album_object(name, cover);
    if let Some(url) = cover {
        let image = JsonValue::Object(seq![("url"@, JsonValue::Text(url))]);
        assert(JsonValue::Text(url).well_formed());
        assert(image.well_formed());
    }
    let images = album->Object_0[1].1;
    assert(images.well_formed());
    assert(JsonValue::Text(name).well_formed());
    assert(album.well_formed());
    if let JsonValue::Object(members) = track {
        if member_of(members, "album"@) is None {
            lemma_key_is_free(members, "album"@);
            let given = members.push(("album"@, album));
            assert(JsonValue::Object(given).well_formed());
        }
    } else if track is Null {
        assert(JsonValue::Object(seq![("album"@, album)]).well_formed());
    }
}

/// A track that names an album keeps it.
pub proof fn law_album_is_kept(track: JsonValue, name: Seq<char>, cover: Option<Seq<char>>)
    requires
        track.get("album"@) is Some,
    ensures
        with_album(track, name, cover) == track,
{
}

/// An empty item of an album page is no track.
pub proof fn law_null_is_no_track(name: Seq<char>, cover: Option<Seq<char>>)
    ensures
        api_track(with_album(JsonValue::Null, name, cover)) is None,
{
    reveal_strlit("album");
    reveal_strlit("name");
    let given = with_album(JsonValue::Null, name, cover);
    let members = given->Object_0;
    assert(members.skip(1) == Seq::<(Seq<char>, JsonValue)>::empty());
    assert("album"@.len() != "name"@.len());
    assert(member_of(members.skip(1), "name"@) is None);
    assert(given.get("name"@) is None);
}

/// A file on the machine of the owner is no track of a playlist.
pub proof fn law_local_files_are_left_out(item: JsonValue, track: JsonValue)
    requires
        item.get("track"@) == Some(track),
        track.bool_member("is_local"@) == Some(true),
    ensures
        playlist_item_track(item) is None,
{
}

/// What elements hold is no longer a list than the elements.
proof fn lemma_somes_len<T>(s: Seq<Option<T>>)
    ensures
        somes(s).len() <= s.len(),
    decreases s.len(),
{
    if s.len() > 0 {
        lemma_somes_len(s.drop_last());
    }
}

/// Every track on a page is sound, and there are no more of them than items.
pub proof fn law_page_tracks_sound(data: JsonValue, name: Seq<char>, cover: Option<Seq<char>>)
    ensures
        forall|k: int|
            0 <= k < playlist_page_tracks(data).len() ==> track_is_sound(
                #[trigger] playlist_page_tracks(data)[k],
            ),
        forall|k: int|
            0 <= k < album_page_tracks(data, name, cover).len() ==> track_is_sound(
                #[trigger] album_page_tracks(data, name, cover)[k],
            ),
        match data.array_member("items"@) {
            Some(items) => playlist_page_tracks(data).len() <= items.len() && album_page_tracks(
                data,
                name,
                cover,
            ).len() <= items.len(),
            None => playlist_page_tracks(data).len() == 0 && album_page_tracks(
                data,
                name,
                cover,
            ).len() == 0,
        },
{
    if let Some(items) = data.array_member("items"@) {
        let a = items.map_values(|item: JsonValue| playlist_item_track(item));
        let b = items.map_values(|track: JsonValue| api_track(with_album(track, name, cover)));
        lemma_somes_len(a);
        lemma_somes_len(b);
        assert forall|k: int| 0 <= k < somes(a).len() implies track_is_sound(
            #[trigger] somes(a)[k],
        ) by {
            lemma_somes_from(a, k);
            let i = choose|i: int| 0 <= i < a.len() && #[trigger] a[i] == Some(somes(a)[k]);
            law_api_track_sound(items[i].get("track"@)->0);
        }
        assert forall|k: int| 0 <= k < somes(b).len() implies track_is_sound(
            #[trigger] somes(b)[k],
        ) by {
            lemma_somes_from(b, k);
            let i = choose|i: int| 0 <= i < b.len() && #[trigger] b[i] == Some(somes(b)[k]);
            law_api_track_sound(with_album(items[i], name, cover));
        }
    }
}

/// Every track that embedded data lists is sound.
pub proof fn law_embed_list_sound(
    entity: JsonValue,
    album: Option<Seq<char>>,
    cover: Option<Seq<char>>,
)
    ensures
        forall|k: int|
            0 <= k < embed_list_tracks(entity, album, cover).len() ==> track_is_sound(
                #[trigger] embed_list_tracks(entity, album, cover)[k],
            ),
{
    if let Some(items) = entity.array_member("trackList"@) {
        let a = items.map_values(|item: JsonValue| embed_track(item, album, cover));
        assert forall|k: int| 0 <= k < somes(a).len() implies track_is_sound(
            #[trigger] somes(a)[k],
        ) by {
            lemma_somes_from(a, k);
            let i = choose|i: int| 0 <= i < a.len() && #[trigger] a[i] == Some(somes(a)[k]);
            law_embed_track_sound(items[i], album, cover);
        }
    }
}

/// A page has items, and says that another page follows it.
pub open spec fn says_more(page: JsonValue) -> bool {
    &&& page.get("items"@) matches Some(JsonValue::Array(items))
    &&& items.len() > 0
    &&& page.get("next"@) matches Some(next)
    &&& next != JsonValue::Null
}

/// How many items a page has.
pub open spec fn item_count(page: JsonValue) -> nat {
    match page.get("items"@) {
        Some(JsonValue::Array(items)) => items.len(),
        _ => 0,
    }
}

/// A page with at least one item and a member `next` that is not null is followed by
/// another page, which begins as many items further as the page has. After any other page
/// there is none.
pub proof fn law_next_page(page: JsonValue, offset: nat)
    ensures
        next_offset(page, offset) is Some <==> says_more(page),
        says_more(page) && item_count(page) <= u32::MAX ==> next_offset(page, offset) == Some(
            offset + item_count(page),
        ),
        !says_more(page) ==> offset_fits(page, offset),
        says_more(page) && item_count(page) <= u32::MAX ==> (offset_fits(page, offset) <==> offset
            + item_count(page) <= u32::MAX),
{
}

/// The tracks on a page of a playlist are those of its items, in their order: an item with
/// a track that is not a file on the machine of the owner yields that track.
pub proof fn law_playlist_page(
    page: JsonValue,
    before: JsonValue,
    behind: JsonValue,
    a: Seq<JsonValue>,
    item: JsonValue,
    b: Seq<JsonValue>,
)
    requires
        page.get("items"@) == Some(JsonValue::Array(a + seq![item] + b)),
        before.get("items"@) == Some(JsonValue::Array(a)),
        behind.get("items"@) == Some(JsonValue::Array(b)),
    ensures
        playlist_page_tracks(page) == playlist_page_tracks(before) + (match item.get("track"@) {
            Some(track) => if track.get("is_local"@) == Some(JsonValue::Bool(true)) {
                Seq::empty()
            } else {
                one_or_none(api_track(track))
            },
            None => Seq::empty(),
        }) + playlist_page_tracks(behind),
{
    lemma_somes_between(a, item, b, |item: JsonValue| playlist_item_track(item));
}

/// The tracks on a page of an album are those of its items, in their order, each with the
/// album if it names none.
pub proof fn law_album_page(
    page: JsonValue,
    before: JsonValue,
    behind: JsonValue,
    a: Seq<JsonValue>,
    item: JsonValue,
    b: Seq<JsonValue>,
    name: Seq<char>,
    cover: Option<Seq<char>>,
)
    requires
        page.get("items"@) == Some(JsonValue::Array(a + seq![item] + b)),
        before.get("items"@) == Some(JsonValue::Array(a)),
        behind.get("items"@) == Some(JsonValue::Array(b)),
    ensures
        album_page_tracks(page, name, cover) == album_page_tracks(before, name, cover)
            + one_or_none(api_track(with_album(item, name, cover))) + album_page_tracks(
            behind,
            name,
            cover,
        ),
{
    lemma_somes_between(
        a,
        item,
        b,
        |track: JsonValue| api_track(with_album(track, name, cover)),
    );
}

/// A page without items has no tracks.
pub proof fn law_page_without_items(page: JsonValue, name: Seq<char>, cover: Option<Seq<char>>)
    requires
        item_count(page) == 0,
    ensures
        playlist_page_tracks(page) == Seq::<TrackView>::empty(),
        album_page_tracks(page, name, cover) == Seq::<TrackView>::empty(),
{
}

/// A track of an album that names no album yields the track that it describes, with the
/// name and the cover of the album in which it is listed.
#[verifier::spinoff_prover]
#[verifier::rlimit(40)]
pub proof fn law_album_of_a_track(track: JsonValue, name: Seq<char>, cover: Option<Seq<char>>)
    requires
        track is Object,
        track.get("album"@) is None,
    ensures
        api_track(with_album(track, name, cover)) == match api_track(track) {
            Some(t) => Some(TrackView { album_title: Some(name), thumbnail_url: cover, ..t }),
            None => None,
        },
{
    law_album_is_given(track, name, cover);
    reveal_strlit("album");
    reveal_strlit("name");
    reveal_strlit("id");
    reveal_strlit("artists");
    reveal_strlit("duration_ms");
    reveal_strlit("explicit");
    assert("explicit"@[0] != "album"@[0]);
    let given = with_album(track, name, cover);
    assert(given.get("name"@) == track.get("name"@));
    assert(given.get("id"@) == track.get("id"@));
    assert("artists"@.len() != "album"@.len());
    assert(given.get("artists"@) == track.get("artists"@));
    assert(given.get("duration_ms"@) == track.get("duration_ms"@));
    assert(given.get("explicit"@) == track.get("explicit"@));
}

/// The items of a page can be given an album exactly where each is an object or null.
pub proof fn law_items_take_album(page: JsonValue)
    ensures
        match page.get("items"@) {
            Some(JsonValue::Array(items)) => items_take_album(page) <==> forall|i: int|
                0 <= i < items.len() ==> (#[trigger] items[i]) is Object || items[i] is Null,
            _ => items_take_album(page),
        },
{
    if let Some(JsonValue::Array(items)) = page.get("items"@) {
        assert(page.array_member("items"@) == Some(items));
        if items_take_album(page) {
            let all = page.array_member("items"@)->0;
            assert forall|i: int| 0 <= i < items.len() implies (#[trigger] items[i]) is Object
                || items[i] is Null by {
                assert(takes_members(all[i]));
            }
        }
    }
}

/// The tracks that embedded data lists are those of its items, in their order.
pub proof fn law_embed_list(
    entity: JsonValue,
    before: JsonValue,
    behind: JsonValue,
    a: Seq<JsonValue>,
    item: JsonValue,
    b: Seq<JsonValue>,
    album: Option<Seq<char>>,
    cover: Option<Seq<char>>,
)
    requires
        entity.get("trackList"@) == Some(JsonValue::Array(a + seq![item] + b)),
        before.get("trackList"@) == Some(JsonValue::Array(a)),
        behind.get("trackList"@) == Some(JsonValue::Array(b)),
    ensures
        embed_list_tracks(entity, album, cover) == embed_list_tracks(before, album, cover)
            + one_or_none(embed_track(item, album, cover)) + embed_list_tracks(
            behind,
            album,
            cover,
        ),
{
    lemma_somes_between(a, item, b, |item: JsonValue| embed_track(item, album, cover));
}

/// Embedded data without a list of tracks, or with an empty one, has no tracks.
pub proof fn law_embed_list_without_items(
    entity: JsonValue,
    album: Option<Seq<char>>,
    cover: Option<Seq<char>>,
)
    requires
        entity.get("trackList"@) matches Some(JsonValue::Array(items)) ==> items.len() == 0,
    ensures
        embed_list_tracks(entity, album, cover) == Seq::<TrackView>::empty(),
{
}

/// The tracks of a playlist in embedded data do not depend on anything but the list of
/// tracks: the name and the images of the playlist do not enter.
pub proof fn law_playlist_does_not_enter(entity: JsonValue, other: JsonValue)
    requires
        entity.get("trackList"@) == other.get("trackList"@),
    ensures
        embed_playlist_tracks(entity) == embed_playlist_tracks(other),
        embed_playlist_tracks(entity) == embed_list_tracks(entity, None, None),
{
}

/// The tracks of an album in embedded data that do not name an album have the name of that
/// album, and those without a cover have its cover: the first image, or the picture.
pub proof fn law_album_enters(
    entity: JsonValue,
    name: Option<Seq<char>>,
    cover: Option<Seq<char>>,
)
    requires
        name == match (match entity.get("name"@) {
            Some(name) => Some(name),
            None => entity.get("title"@),
        }) {
            Some(JsonValue::Text(s)) => Some(s),
            _ => None,
        },
        cover == match entity.pointer(seq!["images"@, "0"@, "url"@]) {
            Some(JsonValue::Text(s)) => Some(s),
            _ => match entity.pointer(seq!["visualIdentity"@, "image"@, "0"@, "url"@]) {
                Some(JsonValue::Text(s)) => Some(s),
                _ => None,
            },
        },
    ensures
        embed_album_tracks(entity) == embed_list_tracks(entity, name, cover),
{
}

/// The model of a place is the number that it is.
pub proof fn law_place_model(n: u32)
    ensures
        opt_nat(Some(n)) == Some(n as nat),
        opt_nat(None) is None,
{
}

} // verus!
