//! What an import yields: the description of a collection, and its tracks.

use vstd::prelude::*;

use crate::json::opt_string;
use crate::text::texts;

verus! {

/// The kinds of collection.
#[derive(Clone, Copy, Debug, PartialEq, Eq, Structural)]
pub enum CollectionType {
    Playlist,
    Album,
}

/// The description of a collection.
#[derive(Debug, PartialEq, Eq)]
pub struct CollectionSummary {
    pub title: String,
    pub kind: CollectionType,
    pub description: Option<String>,
    pub owner: Option<String>,
    pub thumbnail_url: Option<String>,
    pub track_count: Option<u32>,
}

/// The mathematical model of a description.
#[verifier::ext_equal]
pub struct SummaryView {
    pub title: Seq<char>,
    pub kind: CollectionType,
    pub description: Option<Seq<char>>,
    pub owner: Option<Seq<char>>,
    pub thumbnail_url: Option<Seq<char>>,
    pub track_count: Option<u32>,
}

impl View for CollectionSummary {
    type V = SummaryView;

    open spec fn view(&self) -> SummaryView {
        SummaryView {
            title: self.title@,
            kind: self.kind,
            description: opt_string(self.description),
            owner: opt_string(self.owner),
            thumbnail_url: opt_string(self.thumbnail_url),
            track_count: self.track_count,
        }
    }
}

/// One track of a collection.
#[derive(Debug, PartialEq, Eq)]
pub struct TrackItem {
    pub title: String,
    pub artists: Vec<String>,
    pub thumbnail_url: Option<String>,
    pub album_title: Option<String>,
    pub duration_ms: Option<u64>,
    pub is_explicit: Option<bool>,
    pub url: Option<String>,
    pub source_id: Option<String>,
}

/// The mathematical model of a track.
#[verifier::ext_equal]
pub struct TrackView {
    pub title: Seq<char>,
    pub artists: Seq<Seq<char>>,
    pub thumbnail_url: Option<Seq<char>>,
    pub album_title: Option<Seq<char>>,
    pub duration_ms: Option<u64>,
    pub is_explicit: Option<bool>,
    pub url: Option<Seq<char>>,
    pub source_id: Option<Seq<char>>,
}

impl View for TrackItem {
    type V = TrackView;

    open spec fn view(&self) -> TrackView {
        TrackView {
            title: self.title@,
            artists: texts(self.artists@),
            thumbnail_url: opt_string(self.thumbnail_url),
            album_title: opt_string(self.album_title),
            duration_ms: self.duration_ms,
            is_explicit: self.is_explicit,
            url: opt_string(self.url),
            source_id: opt_string(self.source_id),
        }
    }
}

/// The models of a list of tracks.
pub open spec fn track_views(tracks: Seq<TrackItem>) -> Seq<TrackView> {
    tracks.map_values(|t: TrackItem| t@)
}

/// The tracks of a collection.
#[derive(Debug, PartialEq, Eq)]
pub struct Tracks {
    pub items: Vec<TrackItem>,
}

impl View for Tracks {
    type V = Seq<TrackView>;

    open spec fn view(&self) -> Seq<TrackView> {
        track_views(self.items@)
    }
}

// ── Laws ─────────────────────────────────────────────────────────────────────

/// The model of a description has its fields.
pub proof fn law_summary_model(s: CollectionSummary)
    ensures
        s@.title == s.title@,
        s@.kind == s.kind,
        s@.description == opt_string(s.description),
        s@.owner == opt_string(s.owner),
        s@.thumbnail_url == opt_string(s.thumbnail_url),
        s@.track_count == s.track_count,
{
}

/// The model of a track has its fields, and the model of a list of tracks has the models
/// of the tracks in their order.
pub proof fn law_track_model(t: TrackItem, tracks: Tracks)
    ensures
        t@.title == t.title@,
        t@.artists.len() == t.artists@.len(),
        forall|i: int| 0 <= i < t.artists@.len() ==> #[trigger] t@.artists[i] == t.artists@[i]@,
        t@.thumbnail_url == opt_string(t.thumbnail_url),
        t@.album_title == opt_string(t.album_title),
        t@.duration_ms == t.duration_ms,
        t@.is_explicit == t.is_explicit,
        t@.url == opt_string(t.url),
        t@.source_id == opt_string(t.source_id),
        tracks@.len() == tracks.items@.len(),
        forall|i: int| 0 <= i < tracks.items@.len() ==> #[trigger] tracks@[i] == tracks.items@[i]@,
{
}

} // verus!
