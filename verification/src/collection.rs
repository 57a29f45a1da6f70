//! From JSON to the description of a collection.

use vstd::prelude::*;

use crate::json::{opt_str, or_else, owned, Json, JsonValue};
use crate::model::{CollectionSummary, CollectionType, SummaryView};
use crate::text::views;
use crate::track::{
    embed_name, first_str, identity_image, identity_image_path, name_in_embed, text_or_empty,
};

verus! {

// ── Parts of a description ───────────────────────────────────────────────────

/// The number that the low 32 bits of `n` stand for.
pub open spec fn low32(n: nat) -> u32 {
    (n % 0x1_0000_0000) as u32
}

/// The low 32 bits of the number that `o` holds.
pub open spec fn opt_low32(o: Option<u64>) -> Option<u32> {
    match o {
        Some(n) => Some(low32(n as nat)),
        None => None,
    }
}

/// The low 32 bits of `n`.
pub fn truncate(n: u64) -> (r: u32)
    ensures
        r == low32(n as nat),
{
    assert((n as u32) == n % 0x1_0000_0000) by (bit_vector);
    #[verifier::truncate]
    (n as u32)
}

/// The low 32 bits of the number that `o` holds.
fn truncate_count(o: Option<u64>) -> (r: Option<u32>)
    ensures
        r == opt_low32(o),
{
    match o {
        Some(n) => Some(truncate(n)),
        None => None,
    }
}

/// The text that `o` holds, if it is not empty.
pub open spec fn not_empty(o: Option<Seq<char>>) -> Option<Seq<char>> {
    match o {
        Some(s) => if s.len() > 0 {
            Some(s)
        } else {
            None
        },
        None => None,
    }
}

/// The text that `o` holds, if it is not empty.
fn keep_not_empty(o: Option<&str>) -> (r: Option<&str>)
    ensures
        opt_str(r) == not_empty(opt_str(o)),
{
    match o {
        Some(s) => if s.is_empty() {
            None
        } else {
            Some(s)
        },
        None => None,
    }
}

/// The text that `o` holds, or the empty text.
fn or_empty(o: Option<&str>) -> (r: String)
    ensures
        r@ == text_or_empty(opt_str(o)),
{
    match o {
        Some(s) => s.to_string(),
        None => String::new(),
    }
}

/// Where a playlist has the name of its owner.
pub open spec fn owner_path() -> Seq<Seq<char>> {
    seq!["owner"@, "display_name"@]
}

/// Where an album has the name of its first artist.
pub open spec fn artist_path() -> Seq<Seq<char>> {
    seq!["artists"@, "0"@, "name"@]
}

/// Where a collection has the address of its first image.
pub open spec fn image_path() -> Seq<Seq<char>> {
    seq!["images"@, "0"@, "url"@]
}

/// Where a playlist in embedded data has the address of its cover.
pub open spec fn cover_path() -> Seq<Seq<char>> {
    seq!["coverArt"@, "sources"@, "0"@, "url"@]
}

/// Where a collection has the number of its tracks.
pub open spec fn total_path() -> Seq<Seq<char>> {
    seq!["tracks"@, "total"@]
}

/// The name of the owner of `v`.
fn owner_name(v: &Json) -> (r: Option<&str>)
    ensures
        opt_str(r) == v@.text_at(owner_path()),
{
    let path = ["owner", "display_name"];
    assert(views(path@) == owner_path());
    v.text_at(path.as_slice())
}

/// The name of the first artist of `v`.
fn first_artist(v: &Json) -> (r: Option<&str>)
    ensures
        opt_str(r) == v@.text_at(artist_path()),
{
    let path = ["artists", "0", "name"];
    assert(views(path@) == artist_path());
    v.text_at(path.as_slice())
}

/// The address of the first image of `v`.
pub fn first_image(v: &Json) -> (r: Option<&str>)
    ensures
        opt_str(r) == v@.text_at(image_path()),
{
    let path = ["images", "0", "url"];
    assert(views(path@) == image_path());
    v.text_at(path.as_slice())
}

/// The address of the cover of `v`.
fn cover_image(v: &Json) -> (r: Option<&str>)
    ensures
        opt_str(r) == v@.text_at(cover_path()),
{
    let path = ["coverArt", "sources", "0", "url"];
    assert(views(path@) == cover_path());
    v.text_at(path.as_slice())
}

/// The number of tracks of `v`.
fn total_tracks(v: &Json) -> (r: Option<u64>)
    ensures
        r == v@.u64_at(total_path()),
{
    let path = ["tracks", "total"];
    assert(views(path@) == total_path());
    v.u64_at(path.as_slice())
}

/// How many tracks embedded data lists.
pub open spec fn listed_tracks(entity: JsonValue) -> Option<u64> {
    match entity.array_member("trackList"@) {
        Some(items) => Some(items.len() as u64),
        None => None,
    }
}

/// How many tracks `entity` lists.
fn count_listed(entity: &Json) -> (r: Option<u64>)
    ensures
        r == listed_tracks(entity@),
{
    match entity.array_member("trackList") {
        Some(items) => Some(items.len() as u64),
        None => None,
    }
}

// ── Descriptions by the API ──────────────────────────────────────────────────

/// The playlist that the API describes by `data`.
pub open spec fn api_playlist(data: JsonValue) -> SummaryView {
    SummaryView {
        title: text_or_empty(data.text_member("name"@)),
        kind: CollectionType::Playlist,
        description: not_empty(data.text_member("description"@)),
        owner: data.text_at(owner_path()),
        thumbnail_url: data.text_at(image_path()),
        track_count: opt_low32(data.u64_at(total_path())),
    }
}

/// The album that the API describes by `data`.
pub open spec fn api_album(data: JsonValue) -> SummaryView {
    SummaryView {
        title: text_or_empty(data.text_member("name"@)),
        kind: CollectionType::Album,
        description: None,
        owner: data.text_at(artist_path()),
        thumbnail_url: data.text_at(image_path()),
        track_count: opt_low32(data.u64_at(total_path())),
    }
}

/// The playlist that the API describes by `data`.
pub fn get_playlist_info_via_api(data: &Json) -> (r: CollectionSummary)
    ensures
        r@ == api_playlist(data@),
{
    CollectionSummary {
        title: or_empty(data.text_member("name")),
        kind: CollectionType::Playlist,
        description: owned(keep_not_empty(data.text_member("description"))),
        owner: owned(owner_name(data)),
        thumbnail_url: owned(first_image(data)),
        track_count: truncate_count(total_tracks(data)),
    }
}

/// The album that the API describes by `data`.
pub fn get_album_info_via_api(data: &Json) -> (r: CollectionSummary)
    ensures
        r@ == api_album(data@),
{
    CollectionSummary {
        title: or_empty(data.text_member("name")),
        kind: CollectionType::Album,
        description: None,
        owner: owned(first_artist(data)),
        thumbnail_url: owned(first_image(data)),
        track_count: truncate_count(total_tracks(data)),
    }
}

// ── Descriptions in embedded data ────────────────────────────────────────────

/// The playlist that `entity` describes in embedded data.
pub open spec fn embed_playlist(entity: JsonValue) -> SummaryView {
    SummaryView {
        title: text_or_empty(embed_name(entity)),
        kind: CollectionType::Playlist,
        description: not_empty(entity.text_member("description"@)),
        owner: or_else(entity.text_at(owner_path()), entity.text_member("subtitle"@)),
        thumbnail_url: or_else(entity.text_at(image_path()), entity.text_at(cover_path())),
        track_count: opt_low32(or_else(entity.u64_at(total_path()), listed_tracks(entity))),
    }
}

/// The album that `entity` describes in embedded data.
pub open spec fn embed_album(entity: JsonValue) -> SummaryView {
    SummaryView {
        title: text_or_empty(embed_name(entity)),
        kind: CollectionType::Album,
        description: None,
        owner: or_else(entity.text_at(artist_path()), entity.text_member("subtitle"@)),
        thumbnail_url: or_else(entity.text_at(image_path()), entity.text_at(identity_image_path())),
        track_count: opt_low32(or_else(entity.u64_member("total_tracks"@), listed_tracks(entity))),
    }
}

/// The playlist that `entity` describes in embedded data.
pub fn get_playlist_info_via_embed(entity: &Json) -> (r: CollectionSummary)
    ensures
        r@ == embed_playlist(entity@),
{
    let count: Option<u64> = match total_tracks(entity) {
        Some(n) => Some(n),
        None => count_listed(entity),
    };
    CollectionSummary {
        title: or_empty(name_in_embed(entity)),
        kind: CollectionType::Playlist,
        description: owned(keep_not_empty(entity.text_member("description"))),
        owner: owned(first_str(owner_name(entity), entity.text_member("subtitle"))),
        thumbnail_url: owned(first_str(first_image(entity), cover_image(entity))),
        track_count: truncate_count(count),
    }
}

/// The album that `entity` describes in embedded data.
pub fn get_album_info_via_embed(entity: &Json) -> (r: CollectionSummary)
    ensures
        r@ == embed_album(entity@),
{
    let count: Option<u64> = match entity.u64_member("total_tracks") {
        Some(n) => Some(n),
        None => count_listed(entity),
    };
    CollectionSummary {
        title: or_empty(name_in_embed(entity)),
        kind: CollectionType::Album,
        description: None,
        owner: owned(first_str(first_artist(entity), entity.text_member("subtitle"))),
        thumbnail_url: owned(first_str(first_image(entity), identity_image(entity))),
        track_count: truncate_count(count),
    }
}

// ── Laws ─────────────────────────────────────────────────────────────────────

/// A number that can be written in 32 bits is kept, and of a greater one what is left over
/// a multiple of 2^32.
pub proof fn law_low_bits(n: nat)
    ensures
        n <= u32::MAX ==> low32(n) == n,
        low32(n + 0x1_0000_0000) == low32(n),
{
}

/// Where a document says that a collection has some number of tracks, and that can be
/// written in 32 bits, it is the number in the description. Embedded data may say so by
/// the length of its list of tracks. Where a document does not say, there is no number.
pub proof fn law_track_count(data: JsonValue)
    ensures
        match data.pointer(seq!["tracks"@, "total"@]) {
            Some(JsonValue::Number(Some(n))) => n <= u32::MAX ==> {
                &&& api_playlist(data).track_count == Some(n as u32)
                &&& api_album(data).track_count == Some(n as u32)
                &&& embed_playlist(data).track_count == Some(n as u32)
            },
            _ => {
                &&& api_playlist(data).track_count is None
                &&& api_album(data).track_count is None
                &&& match data.get("trackList"@) {
                    Some(JsonValue::Array(items)) => items.len() <= u32::MAX
                        ==> embed_playlist(data).track_count == Some(items.len() as u32),
                    _ => embed_playlist(data).track_count is None,
                }
            },
        },
        match data.get("total_tracks"@) {
            Some(JsonValue::Number(Some(n))) => n <= u32::MAX ==> embed_album(data).track_count
                == Some(n as u32),
            _ => match data.get("trackList"@) {
                Some(JsonValue::Array(items)) => items.len() <= u32::MAX ==> embed_album(
                    data,
                ).track_count == Some(items.len() as u32),
                _ => embed_album(data).track_count is None,
            },
        },
{
}

/// Greater numbers of tracks are counted modulo 2^32.
pub proof fn law_great_track_count(data: JsonValue, n: u64)
    ensures
        data.pointer(seq!["tracks"@, "total"@]) == Some(JsonValue::Number(Some(n))) ==> {
            &&& api_playlist(data).track_count == Some((n % 0x1_0000_0000) as u32)
            &&& api_album(data).track_count == Some((n % 0x1_0000_0000) as u32)
            &&& embed_playlist(data).track_count == Some((n % 0x1_0000_0000) as u32)
        },
        data.get("total_tracks"@) == Some(JsonValue::Number(Some(n))) ==> embed_album(
            data,
        ).track_count == Some((n % 0x1_0000_0000) as u32),
{
}

/// The title, the description, the owner and the cover of a collection are the texts at
/// the places where the API has them.
pub proof fn law_api_description(data: JsonValue)
    ensures
        api_playlist(data).kind == CollectionType::Playlist,
        api_album(data).kind == CollectionType::Album,
        api_playlist(data).title == match data.get("name"@) {
            Some(JsonValue::Text(s)) => s,
            _ => Seq::empty(),
        },
        api_album(data).title == api_playlist(data).title,
        api_playlist(data).description == match data.get("description"@) {
            Some(JsonValue::Text(s)) => if s.len() > 0 {
                Some(s)
            } else {
                None
            },
            _ => None,
        },
        api_album(data).description is None,
        api_playlist(data).owner == match data.pointer(seq!["owner"@, "display_name"@]) {
            Some(JsonValue::Text(s)) => Some(s),
            _ => None,
        },
        api_album(data).owner == match data.pointer(seq!["artists"@, "0"@, "name"@]) {
            Some(JsonValue::Text(s)) => Some(s),
            _ => None,
        },
        api_playlist(data).thumbnail_url == match data.pointer(seq!["images"@, "0"@, "url"@]) {
            Some(JsonValue::Text(s)) => Some(s),
            _ => None,
        },
        api_album(data).thumbnail_url == api_playlist(data).thumbnail_url,
{
}

/// The title, the description, the owner and the cover of a collection are the texts at
/// the places where embedded data has them, the first place that holds one.
pub proof fn law_embed_description(entity: JsonValue)
    ensures
        embed_playlist(entity).kind == CollectionType::Playlist,
        embed_album(entity).kind == CollectionType::Album,
        embed_playlist(entity).title == match (match entity.get("name"@) {
            Some(name) => Some(name),
            None => entity.get("title"@),
        }) {
            Some(JsonValue::Text(s)) => s,
            _ => Seq::empty(),
        },
        embed_album(entity).title == embed_playlist(entity).title,
        embed_playlist(entity).description == match entity.get("description"@) {
            Some(JsonValue::Text(s)) => if s.len() > 0 {
                Some(s)
            } else {
                None
            },
            _ => None,
        },
        embed_album(entity).description is None,
        embed_playlist(entity).owner == match entity.pointer(seq!["owner"@, "display_name"@]) {
            Some(JsonValue::Text(s)) => Some(s),
            _ => match entity.get("subtitle"@) {
                Some(JsonValue::Text(s)) => Some(s),
                _ => None,
            },
        },
        embed_album(entity).owner == match entity.pointer(seq!["artists"@, "0"@, "name"@]) {
            Some(JsonValue::Text(s)) => Some(s),
            _ => match entity.get("subtitle"@) {
                Some(JsonValue::Text(s)) => Some(s),
                _ => None,
            },
        },
        embed_playlist(entity).thumbnail_url == match entity.pointer(
            seq!["images"@, "0"@, "url"@],
        ) {
            Some(JsonValue::Text(s)) => Some(s),
            _ => match entity.pointer(seq!["coverArt"@, "sources"@, "0"@, "url"@]) {
                Some(JsonValue::Text(s)) => Some(s),
                _ => None,
            },
        },
        embed_album(entity).thumbnail_url == match entity.pointer(seq!["images"@, "0"@, "url"@]) {
            Some(JsonValue::Text(s)) => Some(s),
            _ => match entity.pointer(seq!["visualIdentity"@, "image"@, "0"@, "url"@]) {
                Some(JsonValue::Text(s)) => Some(s),
                _ => None,
            },
        },
{
}

} // verus!
