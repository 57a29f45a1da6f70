//! Links to playlists and albums, as share URLs and as `spotify:` URIs.

use vstd::prelude::*;

use crate::json::opt_string;
use crate::text::{
    after_prefix, is_trimmed, law_pieces_hold_no_separator, law_prefixes_are_removed, law_trimmed,
    lemma_differs_at, lemma_span_is, lemma_split_at, lemma_split_whole, lemma_strip_once,
    lemma_trimmed_keeps_front, lemma_trimmed_within, occurs_at, same_text, split_any, split_text,
    starts_with, strip_prefix, trim, trim_start_matches, trimmed, views, white_space,
    without_prefixes,
};

verus! {

/// The kinds of collection that can be imported.
#[derive(Clone, Copy, Debug, PartialEq, Eq, Structural)]
pub enum SpotifyKind {
    Playlist,
    Album,
}

impl SpotifyKind {
    /// The word for this kind in links and addresses.
    pub open spec fn word(self) -> Seq<char> {
        match self {
            SpotifyKind::Playlist => "playlist"@,
            SpotifyKind::Album => "album"@,
        }
    }

    /// The word for this kind in links and addresses.
    pub fn as_str(&self) -> (r: &'static str)
        ensures
            r@ == self.word(),
    {
        match self {
            SpotifyKind::Playlist => "playlist",
            SpotifyKind::Album => "album",
        }
    }
}

/// The kind that a word stands for.
pub open spec fn kind_of_word(word: Seq<char>) -> Option<SpotifyKind> {
    if word == "playlist"@ {
        Some(SpotifyKind::Playlist)
    } else if word == "album"@ {
        Some(SpotifyKind::Album)
    } else {
        None
    }
}

/// What a `spotify:` URI refers to: its second field is the kind, and its third
/// field, trimmed, the identifier, which must not be empty.
pub open spec fn uri_target(uri: Seq<char>) -> Option<(SpotifyKind, Seq<char>)> {
    let fields = split_text(uri, seq![':']);
    if fields.len() < 3 || trimmed(fields[2]).len() == 0 {
        None
    } else {
        match kind_of_word(fields[1]) {
            Some(kind) => Some((kind, trimmed(fields[2]))),
            None => None,
        }
    }
}

/// What is left of a share URL without its scheme and host.
pub open spec fn url_path(url: Seq<char>) -> Seq<char> {
    let a = without_prefixes(url, "https://"@);
    let b = without_prefixes(a, "http://"@);
    let c = without_prefixes(b, "www."@);
    let d = without_prefixes(c, "open.spotify.com/"@);
    let e = without_prefixes(d, "spotify.com/"@);
    without_prefixes(e, "open."@)
}

/// The identifier in a path that begins with `prefix`: what follows, up to the
/// first `?`, `#` or `/`, trimmed. It must not be empty.
pub open spec fn path_id(path: Seq<char>, prefix: Seq<char>) -> Option<Seq<char>> {
    match after_prefix(path, prefix) {
        Some(rest) => {
            let id = trimmed(split_text(rest, seq!['?', '#', '/'])[0]);
            if id.len() > 0 {
                Some(id)
            } else {
                None
            }
        },
        None => None,
    }
}

/// What a share URL refers to.
pub open spec fn url_target(url: Seq<char>) -> Option<(SpotifyKind, Seq<char>)> {
    let path = url_path(url);
    match path_id(path, "playlist/"@) {
        Some(id) => Some((SpotifyKind::Playlist, id)),
        None => match path_id(path, "album/"@) {
            Some(id) => Some((SpotifyKind::Album, id)),
            None => None,
        },
    }
}

/// What a link refers to.
pub open spec fn link_target(link: Seq<char>) -> Option<(SpotifyKind, Seq<char>)> {
    let raw = trimmed(link);
    if occurs_at(raw, "spotify:"@, 0) {
        uri_target(raw)
    } else {
        url_target(raw)
    }
}

/// The kind and the identifier that `o` holds.
pub open spec fn target_view(o: Option<(SpotifyKind, String)>) -> Option<(SpotifyKind, Seq<char>)> {
    match o {
        Some((kind, id)) => Some((kind, id@)),
        None => None,
    }
}

/// The identifier in a path that begins with `prefix`.
fn id_in_path(path: &str, prefix: &str) -> (r: Option<String>)
    ensures
        match r {
            Some(id) => path_id(path@, prefix@) == Some(id@),
            None => path_id(path@, prefix@) is None,
        },
{
    match strip_prefix(path, prefix) {
        Some(rest) => {
            let seps: Vec<char> = vec!['?', '#', '/'];
            assert(seps@ == seq!['?', '#', '/']);
            let pieces = split_any(rest, &seps);
            assert(views(pieces@)[0] == pieces@[0]@);
            let id = trim(pieces[0]);
            if !id.is_empty() {
                Some(id.to_string())
            } else {
                None
            }
        },
        None => None,
    }
}

/// What the link `url` refers to: the kind of collection and its identifier.
pub fn parse_url(url: &str) -> (r: Option<(SpotifyKind, String)>)
    ensures
        target_view(r) == link_target(url@),
{
    let raw = trim(url);
    if starts_with(raw, "spotify:") {
        let seps: Vec<char> = vec![':'];
        assert(seps@ == seq![':']);
        let fields = split_any(raw, &seps);
        if fields.len() >= 3 {
            assert(views(fields@)[1] == fields@[1]@);
            assert(views(fields@)[2] == fields@[2]@);
            let kind = if same_text(fields[1], "playlist") {
                SpotifyKind::Playlist
            } else if same_text(fields[1], "album") {
                SpotifyKind::Album
            } else {
                return None;
            };
            let id = trim(fields[2]);
            if !id.is_empty() {
                return Some((kind, id.to_string()));
            }
        }
        return None;
    }
    let a = trim_start_matches(raw, "https://");
    let b = trim_start_matches(a, "http://");
    let c = trim_start_matches(b, "www.");
    let d = trim_start_matches(c, "open.spotify.com/");
    let e = trim_start_matches(d, "spotify.com/");
    let path = trim_start_matches(e, "open.");
    if let Some(id) = id_in_path(path, "playlist/") {
        return Some((SpotifyKind::Playlist, id));
    }
    if let Some(id) = id_in_path(path, "album/") {
        return Some((SpotifyKind::Album, id));
    }
    None
}

/// The identifier in a URI: its third field, trimmed, which must not be empty.
pub open spec fn uri_id(uri: Seq<char>) -> Option<Seq<char>> {
    let fields = split_text(uri, seq![':']);
    if fields.len() < 3 || trimmed(fields[2]).len() == 0 {
        None
    } else {
        Some(trimmed(fields[2]))
    }
}

/// The identifier in the URI `uri`.
pub fn uri_to_id(uri: &str) -> (r: Option<String>)
    ensures
        opt_string(r) == uri_id(uri@),
{
    let seps: Vec<char> = vec![':'];
    assert(seps@ == seq![':']);
    let fields = split_any(uri, &seps);
    if fields.len() < 3 {
        return None;
    }
    assert(views(fields@)[2] == fields@[2]@);
    let id = trim(fields[2]);
    if id.is_empty() {
        None
    } else {
        Some(id.to_string())
    }
}

// ── Laws ─────────────────────────────────────────────────────────────────────

/// The identifier of a link is never empty, has no white space at its ends, and
/// holds no character that ends an identifier in a link of its form.
pub proof fn law_link_id(link: Seq<char>)
    ensures
        link_target(link) matches Some((kind, id)) ==> {
            &&& id.len() > 0
            &&& is_trimmed(id)
            &&& if occurs_at(trimmed(link), "spotify:"@, 0) {
                !id.contains(':')
            } else {
                !id.contains('?') && !id.contains('#') && !id.contains('/')
            }
        },
{
    if let Some((kind, id)) = link_target(link) {
        let raw = trimmed(link);
        if occurs_at(raw, "spotify:"@, 0) {
            let seps = seq![':'];
            let fields = split_text(raw, seps);
            law_trimmed(fields[2]);
            law_pieces_hold_no_separator(raw, seps);
            if id.contains(':') {
                let i = choose|i: int| 0 <= i < id.len() && id[i] == ':';
                lemma_trimmed_within(fields[2], i);
                let j = choose|j: int| 0 <= j < fields[2].len() && fields[2][j] == ':';
                assert(!seps.contains(fields[2][j]));
                assert(seps[0] == ':');
            }
        } else {
            let path = url_path(raw);
            let seps = seq!['?', '#', '/'];
            let rest = if path_id(path, "playlist/"@) is Some {
                after_prefix(path, "playlist/"@)->0
            } else {
                after_prefix(path, "album/"@)->0
            };
            let piece = split_text(rest, seps)[0];
            law_trimmed(piece);
            law_pieces_hold_no_separator(rest, seps);
            assert forall|c: char| seps.contains(c) implies !id.contains(c) by {
                if id.contains(c) {
                    let i = choose|i: int| 0 <= i < id.len() && id[i] == c;
                    lemma_trimmed_within(piece, i);
                    let j = choose|j: int| 0 <= j < piece.len() && piece[j] == c;
                    assert(!seps.contains(split_text(rest, seps)[0][j]));
                }
            }
            assert(seps[0] == '?' && seps[1] == '#' && seps[2] == '/');
            assert(seps.contains('?') && seps.contains('#') && seps.contains('/'));
        }
    }
}

/// White space around a link does not matter.
pub proof fn law_link_white_space(link: Seq<char>)
    ensures
        link_target(trimmed(link)) == link_target(link),
{
    law_trimmed(link);
}

/// `id` can stand as an identifier in a link whose fields end at `seps`.
pub open spec fn clean_id(id: Seq<char>, seps: Seq<char>) -> bool {
    &&& id.len() > 0
    &&& is_trimmed(id)
    &&& forall|i: int| 0 <= i < id.len() ==> !seps.contains(#[trigger] id[i])
}

/// The URI of a collection refers to that collection.
pub proof fn law_uri_names_collection(kind: SpotifyKind, id: Seq<char>)
    requires
        clean_id(id, seq![':']),
    ensures
        link_target("spotify:"@ + kind.word() + ":"@ + id) == Some((kind, id)),
        uri_id("spotify:"@ + kind.word() + ":"@ + id) == Some(id),
{
    reveal_strlit("spotify:");
    reveal_strlit(":");
    reveal_strlit("playlist");
    reveal_strlit("album");
    let seps = seq![':'];
    assert(seps[0] == ':');
    let scheme = seq!['s', 'p', 'o', 't', 'i', 'f', 'y'];
    let word = kind.word();
    let uri = "spotify:"@ + word + ":"@ + id;
    let rest = word.push(':') + id;
    assert(uri == scheme.push(':') + rest);
    lemma_split_at(scheme, ':', rest, seps);
    lemma_split_at(word, ':', id, seps);
    lemma_split_whole(id, seps);
    assert(split_text(uri, seps) == seq![scheme, word, id]);
    law_trimmed(id);
    law_trimmed(uri);
    assert(uri.last() == id.last());
    assert(is_trimmed(uri));
    assert(uri.subrange(0, 8) == "spotify:"@);
    assert("playlist"@[0] != "album"@[0]);
}

/// What a share URL may begin with before the kind: a scheme, `www.` and a host, each
/// of which may be missing.
pub open spec fn is_url_head(scheme: Seq<char>, www: Seq<char>, host: Seq<char>) -> bool {
    &&& scheme == "https://"@ || scheme == "http://"@ || scheme == Seq::<char>::empty()
    &&& www == "www."@ || www == Seq::<char>::empty()
    &&& host == "open.spotify.com/"@ || host == "spotify.com/"@ || host == Seq::<char>::empty()
}

/// Without its scheme and host, a share URL is the path.
#[verifier::spinoff_prover]
#[verifier::rlimit(40)]
proof fn lemma_head_is_removed(
    scheme: Seq<char>,
    www: Seq<char>,
    host: Seq<char>,
    path: Seq<char>,
)
    requires
        is_url_head(scheme, www, host),
        path.len() > 0,
        path[0] == 'p' || path[0] == 'a',
    ensures
        url_path(scheme + www + host + path) == path,
        !occurs_at(scheme + www + host + path, "spotify:"@, 0),
{
    reveal_strlit("spotify:");
    reveal_strlit("https://");
    reveal_strlit("http://");
    reveal_strlit("www.");
    reveal_strlit("open.spotify.com/");
    reveal_strlit("spotify.com/");
    reveal_strlit("open.");
    let url = scheme + www + host + path;
    let c = host + path;
    let b = www + c;
    assert(url == scheme + b);
    assert(scheme.len() == 0 ==> url == b);
    assert(www.len() == 0 ==> b == c);
    assert(host.len() == 0 ==> c == path);
    assert(c[0] == 'o' || c[0] == 's' || c[0] == 'p' || c[0] == 'a');
    assert(b[0] == 'w' || b[0] == c[0]);
    if url[0] != 's' {
        lemma_differs_at(url, "spotify:"@, 0);
    } else {
        lemma_differs_at(url, "spotify:"@, 7);
    }
    if scheme == "https://"@ {
        lemma_strip_once("https://"@, b);
        lemma_differs_at(b, "http://"@, 0);
    } else if scheme == "http://"@ {
        lemma_differs_at(url, "https://"@, 4);
        lemma_strip_once("http://"@, b);
    } else {
        lemma_differs_at(b, "https://"@, 0);
        lemma_differs_at(b, "http://"@, 0);
    }
    if www == "www."@ {
        lemma_strip_once("www."@, c);
    } else {
        lemma_differs_at(c, "www."@, 0);
    }
    if host == "open.spotify.com/"@ {
        lemma_strip_once("open.spotify.com/"@, path);
        lemma_differs_at(path, "spotify.com/"@, 0);
    } else if host == "spotify.com/"@ {
        lemma_differs_at(c, "open.spotify.com/"@, 0);
        lemma_strip_once("spotify.com/"@, path);
    } else {
        lemma_differs_at(path, "open.spotify.com/"@, 0);
        lemma_differs_at(path, "spotify.com/"@, 0);
    }
    lemma_differs_at(path, "open."@, 0);
}

/// The share URL of a collection refers to that collection, with or without a scheme
/// and a host, and whatever follows the identifier after a `?`, `#` or `/`.
#[verifier::spinoff_prover]
#[verifier::rlimit(40)]
pub proof fn law_url_names_collection(
    scheme: Seq<char>,
    www: Seq<char>,
    host: Seq<char>,
    kind: SpotifyKind,
    id: Seq<char>,
    tail: Seq<char>,
)
    requires
        is_url_head(scheme, www, host),
        clean_id(id, seq!['?', '#', '/']),
        tail.len() > 0 ==> seq!['?', '#', '/'].contains(tail[0]),
    ensures
        link_target(scheme + www + host + kind.word() + "/"@ + id + tail) == Some((kind, id)),
{
    reveal_strlit("https://");
    reveal_strlit("http://");
    reveal_strlit("www.");
    reveal_strlit("open.spotify.com/");
    reveal_strlit("spotify.com/");
    reveal_strlit("playlist");
    reveal_strlit("album");
    reveal_strlit("playlist/");
    reveal_strlit("album/");
    reveal_strlit("/");
    let seps = seq!['?', '#', '/'];
    let word = kind.word();
    let start = scheme + www + host + word + "/"@;
    let url = start + id + tail;
    let n = start.len() + id.len();
    assert(url[n - 1] == id.last());
    assert(!white_space(url[0])) by {
        let head = scheme + www + host;
        if head.len() == 0 {
            assert(url[0] == word[0]);
        } else if scheme.len() > 0 {
            assert(url[0] == scheme[0]);
        } else if www.len() > 0 {
            assert(url[0] == www[0]);
        } else {
            assert(url[0] == host[0]);
        }
    }
    lemma_trimmed_keeps_front(url, n as int);
    let raw = trimmed(url);
    let short = tail.take(raw.len() - n);
    let path = word + "/"@ + id + short;
    assert(raw == scheme + www + host + path);
    assert(path[0] == word[0]);
    lemma_head_is_removed(scheme, www, host, path);
    // The identifier is the first piece of what follows the kind.
    let rest = id + short;
    assert forall|i: int| 0 <= i < id.len() implies !seps.contains(#[trigger] rest[i]) by {
        assert(rest[i] == id[i]);
    }
    lemma_span_is(rest, seps, id.len());
    assert(rest.take(id.len() as int) == id);
    assert(split_text(rest, seps)[0] == id);
    law_trimmed(id);
    match kind {
        SpotifyKind::Playlist => {
            assert(path.subrange(0, 9) == "playlist/"@);
            assert(path.skip(9) == rest);
        },
        SpotifyKind::Album => {
            lemma_differs_at(path, "playlist/"@, 0);
            assert(path.subrange(0, 6) == "album/"@);
            assert(path.skip(6) == rest);
        },
    }
}

/// The word for a kind is its name, and no word stands for two kinds.
pub proof fn law_kind_words(kind: SpotifyKind, word: Seq<char>)
    ensures
        SpotifyKind::Playlist.word() == "playlist"@,
        SpotifyKind::Album.word() == "album"@,
        kind_of_word(word) == Some(kind) <==> word == kind.word(),
{
    reveal_strlit("playlist");
    reveal_strlit("album");
    assert("playlist"@.len() != "album"@.len());
}

/// `tail` ends a field: it is empty or begins with one of `seps`.
pub open spec fn ends_field(tail: Seq<char>, seps: Seq<char>) -> bool {
    tail.len() > 0 ==> seps.contains(tail[0])
}

/// The first piece of a text that begins with a field is that field.
proof fn lemma_first_piece(field: Seq<char>, tail: Seq<char>, seps: Seq<char>)
    requires
        forall|i: int| 0 <= i < field.len() ==> !seps.contains(#[trigger] field[i]),
        ends_field(tail, seps),
    ensures
        split_text(field + tail, seps).len() > 0,
        split_text(field + tail, seps)[0] == field,
{
    if tail.len() == 0 {
        lemma_split_whole(field, seps);
        assert(field + tail == field);
    } else {
        lemma_split_at(field, tail[0], tail.skip(1), seps);
        assert(field.push(tail[0]) + tail.skip(1) =~= field + tail);
    }
}

/// A URI has fields between colons. The third is the identifier, without white space at
/// its ends, unless it is blank, and a URI with fewer fields has none.
pub proof fn law_uri_id(a: Seq<char>, b: Seq<char>, field: Seq<char>, tail: Seq<char>)
    requires
        !a.contains(':'),
        !b.contains(':'),
        !field.contains(':'),
        ends_field(tail, seq![':']),
    ensures
        uri_id(a) is None,
        uri_id(a + seq![':'] + b) is None,
        trimmed(field).len() > 0 ==> uri_id(a + seq![':'] + b + seq![':'] + field + tail) == Some(
            trimmed(field),
        ),
        trimmed(field).len() == 0 ==> uri_id(a + seq![':'] + b + seq![':'] + field + tail) is None,
{
    lemma_uri_fields(a, b, field, tail);
}

/// The fields of a URI.
#[verifier::spinoff_prover]
#[verifier::rlimit(40)]
proof fn lemma_uri_fields(a: Seq<char>, b: Seq<char>, field: Seq<char>, tail: Seq<char>)
    requires
        !a.contains(':'),
        !b.contains(':'),
        !field.contains(':'),
        ends_field(tail, seq![':']),
    ensures
        split_text(a, seq![':']) == seq![a],
        split_text(a + seq![':'] + b, seq![':']) == seq![a, b],
        ({
            let fields = split_text(a + seq![':'] + b + seq![':'] + field + tail, seq![':']);
            fields.len() >= 3 && fields[0] == a && fields[1] == b && fields[2] == field
        }),
{
    let seps = seq![':'];
    assert(seps[0] == ':');
    assert forall|i: int| 0 <= i < a.len() implies !seps.contains(#[trigger] a[i]) by {
        assert(a.contains(a[i]));
    }
    assert forall|i: int| 0 <= i < b.len() implies !seps.contains(#[trigger] b[i]) by {
        assert(b.contains(b[i]));
    }
    assert forall|i: int| 0 <= i < field.len() implies !seps.contains(#[trigger] field[i]) by {
        assert(field.contains(field[i]));
    }
    lemma_split_whole(a, seps);
    lemma_split_whole(b, seps);
    lemma_split_at(a, ':', b, seps);
    assert(a.push(':') + b =~= a + seq![':'] + b);
    assert(seq![a] + seq![b] =~= seq![a, b]);
    let last = field + tail;
    let rest = b + seq![':'] + last;
    lemma_first_piece(field, tail, seps);
    lemma_split_at(b, ':', last, seps);
    assert(b.push(':') + last =~= rest);
    lemma_split_at(a, ':', rest, seps);
    assert(a.push(':') + rest =~= a + seq![':'] + b + seq![':'] + field + tail);
}

/// What a link that begins with `spotify:` refers to: its second field must be the word
/// for a kind, and its third field, without white space at its ends, is the identifier.
#[verifier::spinoff_prover]
#[verifier::rlimit(40)]
pub proof fn law_uri_reading(link: Seq<char>, word: Seq<char>, field: Seq<char>, tail: Seq<char>)
    requires
        !word.contains(':'),
        !field.contains(':'),
        ends_field(tail, seq![':']),
    ensures
        trimmed(link) == "spotify:"@ + word ==> link_target(link) is None,
        trimmed(link) == "spotify:"@ + word + ":"@ + field + tail ==> {
            &&& word == "playlist"@ && trimmed(field).len() > 0 ==> link_target(link) == Some(
                (SpotifyKind::Playlist, trimmed(field)),
            )
            &&& word == "album"@ && trimmed(field).len() > 0 ==> link_target(link) == Some(
                (SpotifyKind::Album, trimmed(field)),
            )
            &&& (word != "playlist"@ && word != "album"@) || trimmed(field).len() == 0
                ==> link_target(link) is None
        },
{
    reveal_strlit("spotify:");
    reveal_strlit(":");
    reveal_strlit("playlist");
    reveal_strlit("album");
    assert("playlist"@.len() != "album"@.len());
    let scheme = seq!['s', 'p', 'o', 't', 'i', 'f', 'y'];
    let raw = trimmed(link);
    lemma_uri_fields(scheme, word, field, tail);
    assert("spotify:"@ + word =~= scheme + seq![':'] + word);
    assert("spotify:"@ + word + ":"@ + field + tail =~= scheme + seq![':'] + word + seq![':']
        + field + tail);
    assert(("spotify:"@ + word).subrange(0, 8) =~= "spotify:"@);
    assert(("spotify:"@ + word + ":"@ + field + tail).subrange(0, 8) =~= "spotify:"@);
}

/// `p` as often as `n` says.
pub open spec fn repeated(p: Seq<char>, n: nat) -> Seq<char>
    decreases n,
{
    if n == 0 {
        Seq::empty()
    } else {
        p + repeated(p, (n - 1) as nat)
    }
}

/// A prefix that is repeated is removed as often as it is there.
proof fn lemma_repeated_is_removed(p: Seq<char>, n: nat, s: Seq<char>)
    requires
        p.len() > 0,
        !occurs_at(s, p, 0),
    ensures
        without_prefixes(repeated(p, n) + s, p) == s,
    decreases n,
{
    if n == 0 {
        assert(repeated(p, n) + s =~= s);
    } else {
        lemma_repeated_is_removed(p, (n - 1) as nat, s);
        let rest = repeated(p, (n - 1) as nat) + s;
        assert(repeated(p, n) + s =~= p + rest);
        law_prefixes_are_removed(rest, p);
    }
}

/// The path of a share URL is what is left when the schemes, `www.` and the hosts are
/// removed from its front, one after the other and each as often as it is there.
pub proof fn law_url_path(
    n1: nat,
    n2: nat,
    n3: nat,
    n4: nat,
    n5: nat,
    n6: nat,
    path: Seq<char>,
)
    requires
        ({
            let e = repeated("open."@, n6) + path;
            let d = repeated("spotify.com/"@, n5) + e;
            let c = repeated("open.spotify.com/"@, n4) + d;
            let b = repeated("www."@, n3) + c;
            let a = repeated("http://"@, n2) + b;
            &&& !occurs_at(a, "https://"@, 0)
            &&& !occurs_at(b, "http://"@, 0)
            &&& !occurs_at(c, "www."@, 0)
            &&& !occurs_at(d, "open.spotify.com/"@, 0)
            &&& !occurs_at(e, "spotify.com/"@, 0)
            &&& !occurs_at(path, "open."@, 0)
        }),
    ensures
        url_path(
            repeated("https://"@, n1) + (repeated("http://"@, n2) + (repeated("www."@, n3) + (
            repeated("open.spotify.com/"@, n4) + (repeated("spotify.com/"@, n5) + (repeated(
                "open."@,
                n6,
            ) + path))))),
        ) == path,
{
    reveal_strlit("https://");
    reveal_strlit("http://");
    reveal_strlit("www.");
    reveal_strlit("open.spotify.com/");
    reveal_strlit("spotify.com/");
    reveal_strlit("open.");
    let e = repeated("open."@, n6) + path;
    let d = repeated("spotify.com/"@, n5) + e;
    let c = repeated("open.spotify.com/"@, n4) + d;
    let b = repeated("www."@, n3) + c;
    let a = repeated("http://"@, n2) + b;
    lemma_repeated_is_removed("https://"@, n1, a);
    lemma_repeated_is_removed("http://"@, n2, b);
    lemma_repeated_is_removed("www."@, n3, c);
    lemma_repeated_is_removed("open.spotify.com/"@, n4, d);
    lemma_repeated_is_removed("spotify.com/"@, n5, e);
    lemma_repeated_is_removed("open."@, n6, path);
}

/// What a link that does not begin with `spotify:` refers to: its path must begin with the
/// word for a kind and a slash, and what follows, up to a `?`, `#` or `/` and without white
/// space at its ends, is the identifier.
#[verifier::spinoff_prover]
#[verifier::rlimit(40)]
pub proof fn law_url_reading(link: Seq<char>, field: Seq<char>, tail: Seq<char>)
    requires
        !occurs_at(trimmed(link), "spotify:"@, 0),
        !field.contains('?'),
        !field.contains('#'),
        !field.contains('/'),
        ends_field(tail, seq!['?', '#', '/']),
    ensures
        url_path(trimmed(link)) == "playlist/"@ + field + tail && trimmed(field).len() > 0
            ==> link_target(link) == Some((SpotifyKind::Playlist, trimmed(field))),
        url_path(trimmed(link)) == "album/"@ + field + tail && trimmed(field).len() > 0
            ==> link_target(link) == Some((SpotifyKind::Album, trimmed(field))),
        (url_path(trimmed(link)) == "playlist/"@ + field + tail || url_path(trimmed(link))
            == "album/"@ + field + tail) && trimmed(field).len() == 0 ==> link_target(link) is None,
        !occurs_at(url_path(trimmed(link)), "playlist/"@, 0) && !occurs_at(
            url_path(trimmed(link)),
            "album/"@,
            0,
        ) ==> link_target(link) is None,
{
    reveal_strlit("playlist/");
    reveal_strlit("album/");
    let seps = seq!['?', '#', '/'];
    assert(seps[0] == '?' && seps[1] == '#' && seps[2] == '/');
    assert forall|i: int| 0 <= i < field.len() implies !seps.contains(#[trigger] field[i]) by {
        assert(field.contains(field[i]));
    }
    lemma_first_piece(field, tail, seps);
    let path = url_path(trimmed(link));
    if path == "playlist/"@ + field + tail {
        assert(path =~= "playlist/"@ + (field + tail));
        law_prefixes_are_removed(field + tail, "playlist/"@);
        lemma_differs_at(path, "album/"@, 0);
    }
    if path == "album/"@ + field + tail {
        assert(path =~= "album/"@ + (field + tail));
        law_prefixes_are_removed(field + tail, "album/"@);
        lemma_differs_at(path, "playlist/"@, 0);
    }
}

/// The model of what a link refers to has the kind and the identifier.
pub proof fn law_target_model(kind: SpotifyKind, id: String)
    ensures
        target_view(Some((kind, id))) == Some((kind, id@)),
        target_view(None) is None,
{
}

} // verus!
