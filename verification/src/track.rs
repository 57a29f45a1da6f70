//! From JSON to single tracks.

use vstd::prelude::*;

use crate::http::joined;
use crate::json::{json_views, opt_str, opt_string, or_else, owned, Json, JsonValue};
use crate::link::{uri_id, uri_to_id};
use crate::model::{TrackItem, TrackView};
use crate::text::{
    is_trimmed, law_pieces, law_pieces_hold_no_separator, law_trimmed, lemma_span_is,
    lemma_span_without, lemma_trimmed_within, span_without, split_any, split_text, texts, trim,
    trim_back, trimmed, views,
};

verus! {

// ── Parts of a track ─────────────────────────────────────────────────────────

/// What the elements of `s` that hold something hold, in their order.
pub open spec fn somes<T>(s: Seq<Option<T>>) -> Seq<T>
    decreases s.len(),
{
    if s.len() == 0 {
        Seq::empty()
    } else {
        match s.last() {
            Some(x) => somes(s.drop_last()).push(x),
            None => somes(s.drop_last()),
        }
    }
}

/// The text that `o` leads to, if it leads to text.
pub open spec fn text_of(o: Option<JsonValue>) -> Option<Seq<char>> {
    match o {
        Some(v) => v.as_text(),
        None => None,
    }
}

/// The text that `o` holds, or the empty text.
pub open spec fn text_or_empty(o: Option<Seq<char>>) -> Seq<char> {
    match o {
        Some(s) => s,
        None => Seq::empty(),
    }
}

/// The name of a thing in embedded data: the text of its member `name`, and only
/// where it has no such member that of its member `title`.
pub open spec fn embed_name(v: JsonValue) -> Option<Seq<char>> {
    text_of(or_else(v.get("name"@), v.get("title"@)))
}

/// The name of a thing in embedded data.
pub fn name_in_embed(v: &Json) -> (r: Option<&str>)
    ensures
        opt_str(r) == embed_name(v@),
{
    match v.get("name") {
        Some(name) => name.as_str(),
        None => v.text_member("title"),
    }
}

/// The names of artists: the text of the member `name` of each that has one.
pub open spec fn artist_names(artists: Seq<JsonValue>) -> Seq<Seq<char>> {
    somes(artists.map_values(|a: JsonValue| a.text_member("name"@)))
}

/// The names of `artists`.
fn names_of(artists: &Vec<Json>) -> (r: Vec<String>)
    ensures
        texts(r@) == artist_names(json_views(artists@)),
{
    let ghost names = json_views(artists@).map_values(|a: JsonValue| a.text_member("name"@));
    let mut out: Vec<String> = Vec::new();
    let mut i: usize = 0;
    while i < artists.len()
        invariant
            i <= artists.len(),
            names == json_views(artists@).map_values(|a: JsonValue| a.text_member("name"@)),
            texts(out@) == somes(names.take(i as int)),
        decreases artists.len() - i,
    {
        let ghost before = out@;
        assert(names.take(i + 1).drop_last() == names.take(i as int));
        assert(names[i as int] == artists@[i as int]@.text_member("name"@));
        if let Some(name) = artists[i].text_member("name") {
            let copy: String = name.to_string();
            out.push(copy);
            assert(texts(out@) == texts(before).push(copy@));
        }
        i = i + 1;
    }
    assert(names.take(i as int) == names);
    out
}

/// The pieces that are not empty once trimmed, trimmed.
pub open spec fn trimmed_pieces(pieces: Seq<Seq<char>>) -> Seq<Seq<char>> {
    somes(
        pieces.map_values(
            |p: Seq<char>|
                if trimmed(p).len() > 0 {
                    Some(trimmed(p))
                } else {
                    None
                },
        ),
    )
}

/// The artists that a subtitle names: they stand between commas and no-break
/// spaces.
pub open spec fn subtitle_artists(subtitle: Seq<char>) -> Seq<Seq<char>> {
    trimmed_pieces(split_text(subtitle, seq![',', '\u{a0}']))
}

/// The artists that `subtitle` names.
pub fn split_artists_subtitle(subtitle: &str) -> (r: Vec<String>)
    ensures
        texts(r@) == subtitle_artists(subtitle@),
{
    let seps: Vec<char> = vec![',', '\u{a0}'];
    assert(seps@ == seq![',', '\u{a0}']);
    let pieces = split_any(subtitle, &seps);
    let ghost kept = views(pieces@).map_values(
        |p: Seq<char>|
            if trimmed(p).len() > 0 {
                Some(trimmed(p))
            } else {
                None
            },
    );
    let mut out: Vec<String> = Vec::new();
    let mut i: usize = 0;
    while i < pieces.len()
        invariant
            i <= pieces.len(),
            kept == views(pieces@).map_values(
                |p: Seq<char>|
                    if trimmed(p).len() > 0 {
                        Some(trimmed(p))
                    } else {
                        None
                    },
            ),
            texts(out@) == somes(kept.take(i as int)),
        decreases pieces.len() - i,
    {
        let ghost before = out@;
        assert(kept.take(i + 1).drop_last() == kept.take(i as int));
        let piece = trim(pieces[i]);
        if !piece.is_empty() {
            let copy: String = piece.to_string();
            out.push(copy);
            assert(texts(out@) == texts(before).push(copy@));
        }
        i = i + 1;
    }
    assert(kept.take(i as int) == kept);
    out
}

/// The address of a track.
pub open spec fn track_address(id: Seq<char>) -> Seq<char> {
    "https://open.spotify.com/track/"@ + id
}

/// The address of the track that `o` identifies.
pub open spec fn opt_track_address(o: Option<Seq<char>>) -> Option<Seq<char>> {
    match o {
        Some(id) => Some(track_address(id)),
        None => None,
    }
}

/// The address of the track that `id` identifies.
fn track_url(id: &Option<String>) -> (r: Option<String>)
    ensures
        opt_string(r) == opt_track_address(opt_string(*id)),
{
    match id {
        Some(id) => Some(joined("https://open.spotify.com/track/", id.as_str())),
        None => None,
    }
}

/// Where a track has the address of its first album image.
pub open spec fn album_image_path() -> Seq<Seq<char>> {
    seq!["album"@, "images"@, "0"@, "url"@]
}

/// Where a track has the name of its album.
pub open spec fn album_name_path() -> Seq<Seq<char>> {
    seq!["album"@, "name"@]
}

/// Where a thing in embedded data has the address of its first picture.
pub open spec fn identity_image_path() -> Seq<Seq<char>> {
    seq!["visualIdentity"@, "image"@, "0"@, "url"@]
}

/// The address of the first album image of `track`.
fn album_image(track: &Json) -> (r: Option<&str>)
    ensures
        opt_str(r) == track@.text_at(album_image_path()),
{
    let path = ["album", "images", "0", "url"];
    assert(views(path@) == album_image_path());
    track.text_at(path.as_slice())
}

/// The name of the album of `track`.
fn album_name(track: &Json) -> (r: Option<&str>)
    ensures
        opt_str(r) == track@.text_at(album_name_path()),
{
    let path = ["album", "name"];
    assert(views(path@) == album_name_path());
    track.text_at(path.as_slice())
}

/// The address of the first picture of `v`.
pub fn identity_image(v: &Json) -> (r: Option<&str>)
    ensures
        opt_str(r) == v@.text_at(identity_image_path()),
{
    let path = ["visualIdentity", "image", "0", "url"];
    assert(views(path@) == identity_image_path());
    v.text_at(path.as_slice())
}

// ── Single tracks ────────────────────────────────────────────────────────────

/// The model of the track that `o` holds.
pub open spec fn opt_track(o: Option<TrackItem>) -> Option<TrackView> {
    match o {
        Some(t) => Some(t@),
        None => None,
    }
}

/// The track that the API describes by `track`: none where the name is missing
/// or blank.
pub open spec fn api_track(track: JsonValue) -> Option<TrackView> {
    let title = trimmed(text_or_empty(track.text_member("name"@)));
    if title.len() == 0 {
        None
    } else {
        let source_id = track.text_member("id"@);
        Some(
            TrackView {
                title,
                artists: match track.array_member("artists"@) {
                    Some(artists) => artist_names(artists),
                    None => Seq::empty(),
                },
                thumbnail_url: track.text_at(album_image_path()),
                album_title: track.text_at(album_name_path()),
                duration_ms: track.u64_member("duration_ms"@),
                is_explicit: track.bool_member("explicit"@),
                url: opt_track_address(source_id),
                source_id,
            },
        )
    }
}

/// The track that the API describes by `track`.
pub fn parse_api_track(track: &Json) -> (r: Option<TrackItem>)
    ensures
        opt_track(r) == api_track(track@),
{
    let title = match track.text_member("name") {
        Some(name) => trim(name),
        None => {
            assert(trim_back(Seq::<char>::empty()).len() == 0);
            return None;
        },
    };
    if title.is_empty() {
        return None;
    }
    let artists: Vec<String> = match track.array_member("artists") {
        Some(artists) => names_of(artists),
        None => Vec::new(),
    };
    assert(track@.array_member("artists"@) is None ==> texts(artists@) == Seq::<Seq<char>>::empty());
    let source_id: Option<String> = owned(track.text_member("id"));
    let url: Option<String> = track_url(&source_id);
    Some(
        TrackItem {
            title: title.to_string(),
            artists,
            thumbnail_url: owned(album_image(track)),
            album_title: owned(album_name(track)),
            duration_ms: track.u64_member("duration_ms"),
            is_explicit: track.bool_member("explicit"),
            url,
            source_id,
        },
    )
}

/// The track that `item` describes in embedded data: none where the name is
/// missing or blank. What `item` does not say of its album is taken from the
/// given name and cover.
pub open spec fn embed_track(
    item: JsonValue,
    default_album: Option<Seq<char>>,
    default_cover: Option<Seq<char>>,
) -> Option<TrackView> {
    let title = trimmed(text_or_empty(embed_name(item)));
    if title.len() == 0 {
        None
    } else {
        let source_id = or_else(
            item.text_member("id"@),
            match item.text_member("uri"@) {
                Some(uri) => uri_id(uri),
                None => None,
            },
        );
        Some(
            TrackView {
                title,
                artists: match item.array_member("artists"@) {
                    Some(artists) => artist_names(artists),
                    None => match item.text_member("subtitle"@) {
                        Some(subtitle) => subtitle_artists(subtitle),
                        None => Seq::empty(),
                    },
                },
                thumbnail_url: or_else(
                    item.text_at(album_image_path()),
                    or_else(item.text_at(identity_image_path()), default_cover),
                ),
                album_title: or_else(item.text_at(album_name_path()), default_album),
                duration_ms: or_else(item.u64_member("duration_ms"@), item.u64_member("duration"@)),
                is_explicit: or_else(item.bool_member("explicit"@), item.bool_member("isExplicit"@)),
                url: opt_track_address(source_id),
                source_id,
            },
        )
    }
}

/// The artists of a track in embedded data.
fn embed_artists(item: &Json) -> (r: Vec<String>)
    ensures
        texts(r@) == (match item@.array_member("artists"@) {
            Some(artists) => artist_names(artists),
            None => match item@.text_member("subtitle"@) {
                Some(subtitle) => subtitle_artists(subtitle),
                None => Seq::empty(),
            },
        }),
{
    match item.array_member("artists") {
        Some(artists) => names_of(artists),
        None => match item.text_member("subtitle") {
            Some(subtitle) => split_artists_subtitle(subtitle),
            None => {
                let none: Vec<String> = Vec::new();
                assert(texts(none@) == Seq::<Seq<char>>::empty());
                none
            },
        },
    }
}

/// The identifier of a track in embedded data.
fn embed_source_id(item: &Json) -> (r: Option<String>)
    ensures
        opt_string(r) == or_else(
            item@.text_member("id"@),
            match item@.text_member("uri"@) {
                Some(uri) => uri_id(uri),
                None => None,
            },
        ),
{
    match item.text_member("id") {
        Some(id) => Some(id.to_string()),
        None => match item.text_member("uri") {
            Some(uri) => uri_to_id(uri),
            None => None,
        },
    }
}

/// `a` if it holds something, else `b`.
pub fn first_str<'a>(a: Option<&'a str>, b: Option<&'a str>) -> (r: Option<&'a str>)
    ensures
        opt_str(r) == or_else(opt_str(a), opt_str(b)),
{
    match a {
        Some(s) => Some(s),
        None => b,
    }
}

/// The track that `item` describes in embedded data.
pub fn parse_embed_track(
    item: &Json,
    default_album_title: Option<&str>,
    default_cover: Option<&str>,
) -> (r: Option<TrackItem>)
    ensures
        opt_track(r) == embed_track(item@, opt_str(default_album_title), opt_str(default_cover)),
{
    let title = match name_in_embed(item) {
        Some(name) => trim(name),
        None => {
            assert(trim_back(Seq::<char>::empty()).len() == 0);
            return None;
        },
    };
    if title.is_empty() {
        return None;
    }
    let artists: Vec<String> = embed_artists(item);
    let source_id: Option<String> = embed_source_id(item);
    let url: Option<String> = track_url(&source_id);
    let thumbnail = first_str(album_image(item), first_str(identity_image(item), default_cover));
    let duration_ms: Option<u64> = match item.u64_member("duration_ms") {
        Some(ms) => Some(ms),
        None => item.u64_member("duration"),
    };
    let is_explicit: Option<bool> = match item.bool_member("explicit") {
        Some(b) => Some(b),
        None => item.bool_member("isExplicit"),
    };
    Some(
        TrackItem {
            title: title.to_string(),
            artists,
            thumbnail_url: owned(thumbnail),
            album_title: owned(first_str(album_name(item), default_album_title)),
            duration_ms,
            is_explicit,
            url,
            source_id,
        },
    )
}

// ── Laws ─────────────────────────────────────────────────────────────────────

/// What every track has: a title that is not blank and has no white space at its
/// ends, and an address exactly where it has an identifier.
pub open spec fn track_is_sound(track: TrackView) -> bool {
    &&& track.title.len() > 0
    &&& is_trimmed(track.title)
    &&& track.url == opt_track_address(track.source_id)
}

/// Every track that the API yields is sound.
pub proof fn law_api_track_sound(track: JsonValue)
    ensures
        api_track(track) matches Some(t) ==> track_is_sound(t),
{
    law_trimmed(text_or_empty(track.text_member("name"@)));
}

/// Every track that embedded data yields is sound, and has an album and a cover
/// where those of the collection are known.
pub proof fn law_embed_track_sound(
    item: JsonValue,
    album: Option<Seq<char>>,
    cover: Option<Seq<char>>,
)
    ensures
        embed_track(item, album, cover) matches Some(t) ==> {
            &&& track_is_sound(t)
            &&& album is Some ==> t.album_title is Some
            &&& cover is Some ==> t.thumbnail_url is Some
        },
{
    law_trimmed(text_or_empty(embed_name(item)));
}

/// What the elements that hold something hold comes from those elements.
pub proof fn lemma_somes_from<T>(s: Seq<Option<T>>, k: int)
    requires
        0 <= k < somes(s).len(),
    ensures
        exists|i: int| 0 <= i < s.len() && #[trigger] s[i] == Some(somes(s)[k]),
    decreases s.len(),
{
    if s.len() > 0 {
        let front = s.drop_last();
        if k < somes(front).len() {
            lemma_somes_from(front, k);
            let i = choose|i: int| 0 <= i < front.len() && #[trigger] front[i] == Some(
                somes(front)[k],
            );
            assert(s[i] == front[i]);
        } else {
            assert(s[s.len() - 1] == Some(somes(s)[k]));
        }
    }
}

/// Every artist that a subtitle yields is not blank, has no white space at its
/// ends, and holds neither a comma nor a no-break space.
pub proof fn law_subtitle_artists(subtitle: Seq<char>, k: int)
    requires
        0 <= k < subtitle_artists(subtitle).len(),
    ensures
        subtitle_artists(subtitle)[k].len() > 0,
        is_trimmed(subtitle_artists(subtitle)[k]),
        !subtitle_artists(subtitle)[k].contains(','),
        !subtitle_artists(subtitle)[k].contains('\u{a0}'),
{
    let seps = seq![',', '\u{a0}'];
    let pieces = split_text(subtitle, seps);
    let kept = pieces.map_values(
        |p: Seq<char>|
            if trimmed(p).len() > 0 {
                Some(trimmed(p))
            } else {
                None
            },
    );
    lemma_somes_from(kept, k);
    let artist = subtitle_artists(subtitle)[k];
    let i = choose|i: int| 0 <= i < kept.len() && #[trigger] kept[i] == Some(artist);
    assert(artist == trimmed(pieces[i]) && artist.len() > 0);
    law_trimmed(pieces[i]);
    law_pieces_hold_no_separator(subtitle, seps);
    assert(seps[0] == ',' && seps[1] == '\u{a0}');
    assert forall|c: char| seps.contains(c) implies !artist.contains(c) by {
        if artist.contains(c) {
            let m = choose|m: int| 0 <= m < artist.len() && artist[m] == c;
            lemma_trimmed_within(pieces[i], m);
            let n = choose|n: int| 0 <= n < pieces[i].len() && pieces[i][n] == c;
            assert(!seps.contains(split_text(subtitle, seps)[i][n]));
        }
    }
    assert(seps.contains(',') && seps.contains('\u{a0}'));
}

/// `s` with a comma in the place of every no-break space.
pub open spec fn commas_for_spaces(s: Seq<char>) -> Seq<char> {
    s.map_values(
        |c: char|
            if c == '\u{a0}' {
                ','
            } else {
                c
            },
    )
}

/// Splitting at commas and no-break spaces is splitting at commas once every
/// no-break space is one.
pub proof fn law_space_separates_like_comma(s: Seq<char>)
    ensures
        split_text(s, seq![',', '\u{a0}']) == split_text(commas_for_spaces(s), seq![',']),
    decreases s.len(),
{
    let both = seq![',', '\u{a0}'];
    let comma = seq![','];
    let t = commas_for_spaces(s);
    assert(both[0] == ',' && both[1] == '\u{a0}' && comma[0] == ',');
    lemma_span_without(s, both);
    let n = span_without(s, both);
    assert forall|i: int| 0 <= i < n implies !comma.contains(#[trigger] t[i]) by {
        assert(!both.contains(s[i]));
        assert(both.contains(',') && both.contains('\u{a0}'));
    }
    if n < s.len() {
        assert(both.contains(s[n as int]));
        assert(t[n as int] == ',');
        assert(comma.contains(','));
    }
    lemma_span_is(t, comma, n);
    assert forall|i: int| 0 <= i < n implies t[i] == s[i] by {
        assert(!both.contains(s[i]));
        assert(both.contains('\u{a0}'));
    }
    assert(t.take(n as int) == s.take(n as int));
    if n < s.len() {
        law_space_separates_like_comma(s.skip(n as int + 1));
        assert(commas_for_spaces(s.skip(n as int + 1)) == t.skip(n as int + 1));
    } else {
        assert(t == s);
    }
}

/// Keeping what is there keeps the order: a list in two parts yields what the parts yield,
/// one behind the other, and an element yields what it holds.
pub proof fn law_somes<T>(a: Seq<Option<T>>, b: Seq<Option<T>>, x: T)
    ensures
        somes(Seq::<Option<T>>::empty()) == Seq::<T>::empty(),
        somes(seq![Some(x)]) == seq![x],
        somes(seq![None::<T>]) == Seq::<T>::empty(),
        somes(a + b) == somes(a) + somes(b),
    decreases b.len(),
{
    assert(seq![Some(x)].drop_last() == Seq::<Option<T>>::empty());
    assert(seq![None::<T>].drop_last() == Seq::<Option<T>>::empty());
    reveal_with_fuel(somes, 2);
    if b.len() == 0 {
        assert(a + b == a);
    } else {
        law_somes(a, b.drop_last(), x);
        assert((a + b).drop_last() == a + b.drop_last());
        assert((a + b).last() == b.last());
        match b.last() {
            Some(y) => {
                assert(somes(a) + somes(b.drop_last()).push(y) == (somes(a) + somes(
                    b.drop_last(),
                )).push(y));
            },
            None => {},
        }
    }
}

/// What `o` holds, as a list of one or none.
pub open spec fn one_or_none<T>(o: Option<T>) -> Seq<T> {
    match o {
        Some(x) => seq![x],
        None => Seq::empty(),
    }
}

/// A list that is read item by item yields, for an item between others, what the others
/// before it yield, then what the item yields, then what the others behind it yield.
pub proof fn lemma_somes_between<T, U>(
    a: Seq<T>,
    x: T,
    b: Seq<T>,
    f: spec_fn(T) -> Option<U>,
)
    ensures
        somes((a + seq![x] + b).map_values(f)) == somes(a.map_values(f)) + one_or_none(f(x))
            + somes(b.map_values(f)),
        somes(Seq::<T>::empty().map_values(f)) == Seq::<U>::empty(),
{
    let fa = a.map_values(f);
    let fx = seq![f(x)];
    let fb = b.map_values(f);
    assert((a + seq![x] + b).map_values(f) == fa + fx + fb);
    assert(Seq::<T>::empty().map_values(f) == Seq::<Option<U>>::empty());
    match f(x) {
        Some(y) => {
            law_somes(fa, fx, y);
            law_somes(fa + fx, fb, y);
        },
        None => {
            assert(fx.drop_last() == Seq::<Option<U>>::empty());
            reveal_with_fuel(somes, 2);
            let y = arbitrary::<U>();
            law_somes(fa, fx, y);
            law_somes(fa + fx, fb, y);
        },
    }
}

/// Every artist with a name that is a text is named, in the order of the artists, and no
/// other.
pub proof fn law_artist_names(a: Seq<JsonValue>, artist: JsonValue, b: Seq<JsonValue>)
    ensures
        artist_names(Seq::empty()) == Seq::<Seq<char>>::empty(),
        artist_names(a + seq![artist] + b) == artist_names(a) + (match artist.get("name"@) {
            Some(JsonValue::Text(name)) => seq![name],
            _ => Seq::empty(),
        }) + artist_names(b),
{
    lemma_somes_between(a, artist, b, |a: JsonValue| a.text_member("name"@));
}

/// What stands in a subtitle before the first comma or no-break space is an artist unless
/// it is blank, and the artists of what follows come behind.
pub proof fn law_subtitle_is_split(a: Seq<char>, c: char, b: Seq<char>)
    requires
        c == ',' || c == '\u{a0}',
        !a.contains(','),
        !a.contains('\u{a0}'),
    ensures
        trimmed(a).len() > 0 ==> subtitle_artists(a) == seq![trimmed(a)],
        trimmed(a).len() == 0 ==> subtitle_artists(a) == Seq::<Seq<char>>::empty(),
        subtitle_artists(a + seq![c] + b) == subtitle_artists(a) + subtitle_artists(b),
{
    let seps = seq![',', '\u{a0}'];
    assert(seps[0] == ',' && seps[1] == '\u{a0}');
    assert(seps.contains(c));
    assert forall|i: int| 0 <= i < a.len() implies !seps.contains(#[trigger] a[i]) by {
        assert(a.contains(a[i]));
    }
    law_pieces(a, c, b, seps);
    let f = |p: Seq<char>|
        if trimmed(p).len() > 0 {
            Some(trimmed(p))
        } else {
            None
        };
    let none = Seq::<Seq<char>>::empty();
    let rest = split_text(b, seps);
    lemma_somes_between(none, a, rest, f);
    assert(none + seq![a] + rest == seq![a] + rest);
    lemma_somes_between(none, a, none, f);
    assert(none + seq![a] + none == seq![a]);
    assert(none.map_values(f) == Seq::<Option<Seq<char>>>::empty());
}

/// The fields of a track of the API are the members that they stand for: the name without
/// white space at its ends, the duration, the mark for explicit contents, the identifier,
/// and the name and the first image of the album. A member of another type counts as none.
/// There is a track exactly where there is a name that is not blank.
pub proof fn law_api_track_fields(track: JsonValue)
    ensures
        match track.get("name"@) {
            Some(JsonValue::Text(name)) => if trimmed(name).len() > 0 {
                api_track(track) matches Some(t) && t.title == trimmed(name)
            } else {
                api_track(track) is None
            },
            _ => api_track(track) is None,
        },
        api_track(track) matches Some(t) ==> {
            &&& t.is_explicit == match track.get("explicit"@) {
                Some(JsonValue::Bool(b)) => Some(b),
                _ => None,
            }
            &&& t.duration_ms == match track.get("duration_ms"@) {
                Some(JsonValue::Number(n)) => n,
                _ => None,
            }
            &&& t.source_id == match track.get("id"@) {
                Some(JsonValue::Text(id)) => Some(id),
                _ => None,
            }
            &&& t.url == match track.get("id"@) {
                Some(JsonValue::Text(id)) => Some("https://open.spotify.com/track/"@ + id),
                _ => None,
            }
            &&& t.album_title == match track.pointer(seq!["album"@, "name"@]) {
                Some(JsonValue::Text(name)) => Some(name),
                _ => None,
            }
            &&& t.thumbnail_url == match track.pointer(seq!["album"@, "images"@, "0"@, "url"@]) {
                Some(JsonValue::Text(url)) => Some(url),
                _ => None,
            }
            &&& t.artists == match track.get("artists"@) {
                Some(JsonValue::Array(artists)) => artist_names(artists),
                _ => Seq::empty(),
            }
        },
{
    assert(trim_back(Seq::<char>::empty()).len() == 0);
}

/// The fields of a track in embedded data are the members that they stand for. The name is
/// the member `name`, or `title` where there is no `name`; the identifier is the member
/// `id`, or that in the member `uri`; the other fields have a second place too, and the
/// album and the cover that are handed in come last.
pub proof fn law_embed_track_fields(
    item: JsonValue,
    album: Option<Seq<char>>,
    cover: Option<Seq<char>>,
)
    ensures
        match (match item.get("name"@) {
            Some(name) => Some(name),
            None => item.get("title"@),
        }) {
            Some(JsonValue::Text(name)) => if trimmed(name).len() > 0 {
                embed_track(item, album, cover) matches Some(t) && t.title == trimmed(name)
            } else {
                embed_track(item, album, cover) is None
            },
            _ => embed_track(item, album, cover) is None,
        },
        embed_track(item, album, cover) matches Some(t) ==> {
            &&& t.is_explicit == match item.get("explicit"@) {
                Some(JsonValue::Bool(b)) => Some(b),
                _ => match item.get("isExplicit"@) {
                    Some(JsonValue::Bool(b)) => Some(b),
                    _ => None,
                },
            }
            &&& t.duration_ms == match item.get("duration_ms"@) {
                Some(JsonValue::Number(Some(n))) => Some(n),
                _ => match item.get("duration"@) {
                    Some(JsonValue::Number(n)) => n,
                    _ => None,
                },
            }
            &&& t.source_id == match item.get("id"@) {
                Some(JsonValue::Text(id)) => Some(id),
                _ => match item.get("uri"@) {
                    Some(JsonValue::Text(uri)) => uri_id(uri),
                    _ => None,
                },
            }
            &&& t.url == match t.source_id {
                Some(id) => Some("https://open.spotify.com/track/"@ + id),
                None => None,
            }
            &&& t.album_title == match item.pointer(seq!["album"@, "name"@]) {
                Some(JsonValue::Text(name)) => Some(name),
                _ => album,
            }
            &&& t.thumbnail_url == match item.pointer(seq!["album"@, "images"@, "0"@, "url"@]) {
                Some(JsonValue::Text(url)) => Some(url),
                _ => match item.pointer(seq!["visualIdentity"@, "image"@, "0"@, "url"@]) {
                    Some(JsonValue::Text(url)) => Some(url),
                    _ => cover,
                },
            }
            &&& t.artists == match item.get("artists"@) {
                Some(JsonValue::Array(artists)) => artist_names(artists),
                _ => match item.get("subtitle"@) {
                    Some(JsonValue::Text(subtitle)) => subtitle_artists(subtitle),
                    _ => Seq::empty(),
                },
            }
        },
{
    assert(trim_back(Seq::<char>::empty()).len() == 0);
}

/// The name of a thing in embedded data is its member `name`, or `title` where there is
/// no `name`, if that is a text.
pub proof fn law_embed_name(v: JsonValue)
    ensures
        v.get("name"@) matches Some(name) ==> embed_name(v) == match name {
            JsonValue::Text(s) => Some(s),
            _ => None,
        },
        v.get("name"@) is None ==> embed_name(v) == match v.get("title"@) {
            Some(JsonValue::Text(s)) => Some(s),
            _ => None,
        },
{
}

/// A text that is there is kept, and a missing one is the empty text.
pub proof fn law_missing_text_is_empty(s: Seq<char>, t: TrackItem)
    ensures
        text_or_empty(Some(s)) == s,
        text_or_empty(None) == Seq::<char>::empty(),
        opt_track(Some(t)) == Some(t@) && opt_track(None) is None,
{
}

} // verus!
