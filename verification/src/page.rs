//! What is read from web pages: the data that the player embeds in a page, the
//! client identifier, and the scripts that a page loads.

use vstd::prelude::*;

use crate::json::{opt_str, opt_string, or_else, Json, JsonValue};
use crate::reader::{json_reading, read_json};
use crate::text::{
    chars_of, contains, find, find_text, law_find_first, law_rfind_last, occurs_at, rfind,
    rfind_text, starts_with, suffix, texts, trim, trimmed,
};

verus! {

// ── Text between two marks ───────────────────────────────────────────────────

/// The text between the first `start` in `s` and the first `end` after it.
pub open spec fn between(s: Seq<char>, start: Seq<char>, end: Seq<char>) -> Option<Seq<char>> {
    match find_text(s, start) {
        Some(i) => {
            let rest = s.skip(i + start.len());
            match find_text(rest, end) {
                Some(j) => Some(rest.take(j)),
                None => None,
            }
        },
        None => None,
    }
}

/// The text between the first `start` in `s` and the first `end` after it.
pub fn extract_between<'a>(s: &'a str, start: &str, end: &str) -> (r: Option<&'a str>)
    ensures
        opt_str(r) == between(s@, start@, end@),
{
    match find(s, start) {
        Some(i) => {
            let rest = suffix(s, i + start.unicode_len());
            match find(rest, end) {
                Some(j) => Some(rest.substring_char(0, j)),
                None => None,
            }
        },
        None => None,
    }
}

// ── Embedded data ────────────────────────────────────────────────────────────

/// The trimmed contents of the script element that is opened last before the
/// first `__NEXT_DATA__` in a page.
pub open spec fn payload_text(html: Seq<char>) -> Option<Seq<char>> {
    match find_text(html, "__NEXT_DATA__"@) {
        Some(marker) => match rfind_text(html.take(marker), "<script"@) {
            Some(open) => {
                let element = html.skip(open);
                match find_text(element, ">"@) {
                    Some(tag_end) => {
                        let contents = element.skip(tag_end + 1);
                        match find_text(contents, "</script>"@) {
                            Some(close) => Some(trimmed(contents.take(close))),
                            None => None,
                        }
                    },
                    None => None,
                }
            },
            None => None,
        },
        None => None,
    }
}

/// The document that the payload of a page holds, if it has a payload and that
/// is JSON.
pub open spec fn payload_document(html: Seq<char>) -> Option<JsonValue> {
    match payload_text(html) {
        Some(text) => match json_reading(text) {
            Ok(value) => Some(value),
            Err(_) => None,
        },
        None => None,
    }
}

/// The trimmed contents of the script element that is opened last before the
/// first `__NEXT_DATA__` in `html`.
pub fn next_data_payload(html: &str) -> (r: Option<&str>)
    ensures
        opt_str(r) == payload_text(html@),
{
    proof {
        reveal_strlit(">");
    }
    let marker: usize = match find(html, "__NEXT_DATA__") {
        Some(i) => i,
        None => {
            return None;
        },
    };
    let head = html.substring_char(0, marker);
    assert(head@ == html@.take(marker as int));
    let open: usize = match rfind(head, "<script") {
        Some(i) => i,
        None => {
            return None;
        },
    };
    let element = suffix(html, open);
    let tag_end: usize = match find(element, ">") {
        Some(i) => i,
        None => {
            return None;
        },
    };
    let contents = suffix(element, tag_end + 1);
    match find(contents, "</script>") {
        Some(close) => {
            let inner = contents.substring_char(0, close);
            assert(inner@ == contents@.take(close as int));
            Some(trim(inner))
        },
        None => None,
    }
}

/// The document that the player embeds in the page `html`.
pub fn extract_next_data_json(html: &str) -> (r: Option<Json>)
    ensures
        match r {
            Some(json) => payload_document(html@) == Some(json@) && json@.well_formed(),
            None => payload_document(html@) is None,
        },
{
    match next_data_payload(html) {
        Some(payload) => match read_json(payload) {
            Ok(json) => Some(json),
            Err(_) => None,
        },
        None => None,
    }
}

// ── Client identifier ────────────────────────────────────────────────────────

/// `c` is a hexadecimal digit.
pub open spec fn is_hex_digit(c: char) -> bool {
    let n = c as u32;
    ||| 0x30 <= n <= 0x39
    ||| 0x41 <= n <= 0x46
    ||| 0x61 <= n <= 0x66
}

/// `s` has the form of a client identifier: 32 hexadecimal digits.
pub open spec fn is_client_id(s: Seq<char>) -> bool {
    &&& s.len() == 32
    &&& forall|i: int| 0 <= i < s.len() ==> is_hex_digit(#[trigger] s[i])
}

/// The client identifier that stands, up to a quotation mark, after the first
/// `marker` in a text.
pub open spec fn client_id_after(text: Seq<char>, marker: Seq<char>) -> Option<Seq<char>> {
    match between(text, marker, "\""@) {
        Some(candidate) => if is_client_id(trimmed(candidate)) {
            Some(trimmed(candidate))
        } else {
            None
        },
        None => None,
    }
}

/// The client identifier in a text: the first that any of the four spellings
/// leads to.
pub open spec fn client_id_in(text: Seq<char>) -> Option<Seq<char>> {
    or_else(
        client_id_after(text, "\"clientId\":\""@),
        or_else(
            client_id_after(text, "\"client_id\":\""@),
            or_else(
                client_id_after(text, "clientId:\\\""@),
                client_id_after(text, "client_id:\\\""@),
            ),
        ),
    )
}

/// Whether `s` has the form of a client identifier.
fn looks_like_client_id(s: &str) -> (r: bool)
    ensures
        r == is_client_id(s@),
{
    let chars = chars_of(s);
    if chars.len() != 32 {
        return false;
    }
    let mut i: usize = 0;
    while i < chars.len()
        invariant
            i <= chars.len(),
            chars@ == s@,
            chars.len() == 32,
            forall|j: int| 0 <= j < i ==> is_hex_digit(#[trigger] s@[j]),
        decreases chars.len() - i,
    {
        let n: u32 = chars[i] as u32;
        let hex: bool = (0x30 <= n && n <= 0x39) || (0x41 <= n && n <= 0x46) || (0x61 <= n && n
            <= 0x66);
        if !hex {
            assert(!is_hex_digit(s@[i as int]));
            return false;
        }
        i = i + 1;
    }
    true
}

/// The client identifier after the first `marker` in `text`.
fn client_id_by_marker(text: &str, marker: &str) -> (r: Option<String>)
    ensures
        opt_string(r) == client_id_after(text@, marker@),
{
    match extract_between(text, marker, "\"") {
        Some(candidate) => {
            let id = trim(candidate);
            if looks_like_client_id(id) {
                Some(id.to_string())
            } else {
                None
            }
        },
        None => None,
    }
}

/// The client identifier in `text`.
pub fn extract_client_id_from_text(text: &str) -> (r: Option<String>)
    ensures
        opt_string(r) == client_id_in(text@),
{
    if let Some(id) = client_id_by_marker(text, "\"clientId\":\"") {
        return Some(id);
    }
    if let Some(id) = client_id_by_marker(text, "\"client_id\":\"") {
        return Some(id);
    }
    if let Some(id) = client_id_by_marker(text, "clientId:\\\"") {
        return Some(id);
    }
    client_id_by_marker(text, "client_id:\\\"")
}

// ── Scripts ──────────────────────────────────────────────────────────────────

/// The full address of a script whose `src` attribute reads `raw`.
pub open spec fn script_address(raw: Seq<char>) -> Seq<char> {
    if occurs_at(raw, "//"@, 0) {
        "https:"@ + raw
    } else if occurs_at(raw, "/"@, 0) {
        "https://open.spotify.com"@ + raw
    } else {
        raw
    }
}

/// The addresses in the `src` attributes of a page that name a script, in their
/// order.
pub open spec fn script_addresses(html: Seq<char>) -> Seq<Seq<char>>
    decreases html.len(),
{
    proof {
        law_find_first(html, "src=\""@);
    }
    match find_text(html, "src=\""@) {
        Some(i) => {
            let rest = html.skip(i + 5);
            proof {
                reveal_strlit("src=\"");
                reveal_strlit("\"");
                law_find_first(rest, "\""@);
            }
            match find_text(rest, "\""@) {
                Some(j) => {
                    let raw = rest.take(j);
                    let more = script_addresses(rest.skip(j + 1));
                    if find_text(raw, ".js"@) is Some {
                        seq![script_address(raw)] + more
                    } else {
                        more
                    }
                },
                None => Seq::empty(),
            }
        },
        None => Seq::empty(),
    }
}

/// The full address of a script whose `src` attribute reads `raw`.
fn script_url(raw: &str) -> (r: String)
    ensures
        r@ == script_address(raw@),
{
    if starts_with(raw, "//") {
        let mut url: String = "https:".to_string();
        url.append(raw);
        url
    } else if starts_with(raw, "/") {
        let mut url: String = "https://open.spotify.com".to_string();
        url.append(raw);
        url
    } else {
        raw.to_string()
    }
}

/// The addresses of the scripts that the page `html` loads.
pub fn extract_script_urls(html: &str) -> (r: Vec<String>)
    ensures
        texts(r@) == script_addresses(html@),
{
    proof {
        reveal_strlit("src=\"");
        reveal_strlit("\"");
    }
    let mut out: Vec<String> = Vec::new();
    let mut rest: &str = html;
    loop
        invariant
            "src=\""@.len() == 5,
            "\""@.len() == 1,
            script_addresses(html@) == texts(out@) + script_addresses(rest@),
        decreases rest@.len(),
    {
        let start: usize = match find(rest, "src=\"") {
            Some(i) => i + 5,
            None => {
                return out;
            },
        };
        let tail = suffix(rest, start);
        let end: usize = match find(tail, "\"") {
            Some(j) => j,
            None => {
                return out;
            },
        };
        let raw = tail.substring_char(0, end);
        assert(raw@ == tail@.take(end as int));
        if contains(raw, ".js") {
            let ghost before = out@;
            let url = script_url(raw);
            out.push(url);
            assert(texts(out@) == texts(before) + seq![url@]);
        }
        rest = suffix(tail, end + 1);
    }
}

// ── Laws ─────────────────────────────────────────────────────────────────────

/// What is found between two marks stands between them in the text, and the second
/// mark does not stand in it.
pub proof fn law_between_marks(s: Seq<char>, start: Seq<char>, end: Seq<char>)
    ensures
        between(s, start, end) matches Some(inner) ==> {
            &&& exists|i: int| #[trigger] occurs_at(s, start + inner + end, i)
            &&& end.len() > 0 ==> forall|j: int| !#[trigger] occurs_at(inner, end, j)
        },
{
    if let Some(inner) = between(s, start, end) {
        law_find_first(s, start);
        let i = find_text(s, start)->0;
        let rest = s.skip(i + start.len());
        law_find_first(rest, end);
        let j = find_text(rest, end)->0;
        let all = start + inner + end;
        assert(s.subrange(i, i + start.len()) == start);
        assert(rest.subrange(j, j + end.len()) == end);
        assert forall|k: int| 0 <= k < all.len() implies s.subrange(i, i + all.len())[k]
            == #[trigger] all[k] by {
            if k < start.len() {
                assert(s.subrange(i, i + start.len())[k] == start[k]);
            } else if k < start.len() + inner.len() {
                assert(rest[k - start.len()] == inner[k - start.len()]);
            } else {
                assert(rest.subrange(j, j + end.len())[k - start.len() - j] == end[k - start.len()
                    - j]);
            }
        }
        assert(s.subrange(i, i + all.len()) == all);
        assert(occurs_at(s, all, i));
        if end.len() > 0 {
            assert forall|m: int| !#[trigger] occurs_at(inner, end, m) by {
                if occurs_at(inner, end, m) {
                    assert(rest.subrange(m, m + end.len()) == inner.subrange(m, m + end.len()));
                    assert(occurs_at(rest, end, m));
                }
            }
        }
    }
}

/// Whatever is taken for a client identifier has the form of one.
pub proof fn law_client_id_form(text: Seq<char>)
    ensures
        client_id_in(text) matches Some(id) ==> is_client_id(id),
{
}

/// Every script address that a page yields names a script file.
pub proof fn law_script_addresses(html: Seq<char>)
    ensures
        forall|k: int|
            0 <= k < script_addresses(html).len() ==> find_text(
                #[trigger] script_addresses(html)[k],
                ".js"@,
            ) is Some,
    decreases html.len(),
{
    law_find_first(html, "src=\""@);
    if let Some(i) = find_text(html, "src=\""@) {
        reveal_strlit("src=\"");
        reveal_strlit("\"");
        let rest = html.skip(i + 5);
        law_find_first(rest, "\""@);
        if let Some(j) = find_text(rest, "\""@) {
            let raw = rest.take(j);
            law_script_addresses(rest.skip(j + 1));
            let more = script_addresses(rest.skip(j + 1));
            law_find_first(raw, ".js"@);
            if let Some(m) = find_text(raw, ".js"@) {
                let full = script_address(raw);
                let shift = full.len() - raw.len();
                assert(full.subrange(shift + m, shift + m + ".js"@.len()) == raw.subrange(
                    m,
                    m + ".js"@.len(),
                ));
                assert(occurs_at(full, ".js"@, shift + m));
                law_find_first(full, ".js"@);
                let all = script_addresses(html);
                assert(all == seq![full] + more);
                assert forall|k: int| 0 <= k < all.len() implies find_text(
                    #[trigger] all[k],
                    ".js"@,
                ) is Some by {
                    if k > 0 {
                        assert(all[k] == more[k - 1]);
                    }
                }
            }
        }
    }
}

/// Where a text stands first in another, the search finds it.
proof fn lemma_find_is(s: Seq<char>, p: Seq<char>, i: int)
    requires
        occurs_at(s, p, i),
        forall|j: int| 0 <= j < i ==> !#[trigger] occurs_at(s, p, j),
    ensures
        find_text(s, p) == Some(i),
{
    law_find_first(s, p);
    if let Some(k) = find_text(s, p) {
        if k < i {
            assert(!occurs_at(s, p, k));
        }
    }
}

/// What stands between the first of two marks in a text and the next of the second mark
/// is found. Nothing is found where the first mark does not stand in the text, or the
/// second does not stand behind it.
pub proof fn law_between_is_found(
    a: Seq<char>,
    start: Seq<char>,
    inner: Seq<char>,
    end: Seq<char>,
    b: Seq<char>,
)
    requires
        forall|j: int| 0 <= j < a.len() ==> !#[trigger] occurs_at(a + start + inner + end + b, start, j),
        forall|j: int| 0 <= j < inner.len() ==> !#[trigger] occurs_at(inner + end + b, end, j),
    ensures
        between(a + start + inner + end + b, start, end) == Some(inner),
{
    let s = a + start + inner + end + b;
    let rest = inner + end + b;
    assert(s.subrange(a.len() as int, a.len() as int + start.len()) =~= start);
    lemma_find_is(s, start, a.len() as int);
    assert(s.skip(a.len() as int + start.len()) =~= rest);
    assert(rest.subrange(inner.len() as int, inner.len() as int + end.len()) =~= end);
    lemma_find_is(rest, end, inner.len() as int);
    assert(rest.take(inner.len() as int) =~= inner);
}

/// Nothing is found between marks where the first mark does not stand in the text, or the
/// second does not stand behind the first of the first mark.
pub proof fn law_nothing_between(
    a: Seq<char>,
    start: Seq<char>,
    rest: Seq<char>,
    end: Seq<char>,
    s: Seq<char>,
)
    ensures
        (forall|j: int| !#[trigger] occurs_at(s, start, j)) ==> between(s, start, end) is None,
        s == a + start + rest && (forall|j: int|
            0 <= j < a.len() ==> !#[trigger] occurs_at(s, start, j)) && (forall|j: int|
            !#[trigger] occurs_at(rest, end, j)) ==> between(s, start, end) is None,
{
    law_find_first(s, start);
    if s == a + start + rest && (forall|j: int|
        0 <= j < a.len() ==> !#[trigger] occurs_at(s, start, j)) {
        assert(s.subrange(a.len() as int, a.len() as int + start.len()) =~= start);
        lemma_find_is(s, start, a.len() as int);
        assert(s.skip(a.len() as int + start.len()) =~= rest);
        law_find_first(rest, end);
    }
}

/// A page that has, between other things, a script element with the given tag and
/// contents.
pub open spec fn page_with_script(
    before: Seq<char>,
    tag: Seq<char>,
    contents: Seq<char>,
    behind: Seq<char>,
) -> Seq<char> {
    before + "<script"@ + tag + ">"@ + contents + "</script>"@ + behind
}

/// The script element that is opened at `before` is the last that is opened before the
/// first `__NEXT_DATA__` of the page, which stands at `marker`, and it ends with its
/// contents.
pub open spec fn holds_payload(
    before: Seq<char>,
    tag: Seq<char>,
    contents: Seq<char>,
    behind: Seq<char>,
    marker: int,
) -> bool {
    let html = page_with_script(before, tag, contents, behind);
    &&& occurs_at(html, "__NEXT_DATA__"@, marker)
    &&& forall|j: int| 0 <= j < marker ==> !#[trigger] occurs_at(html, "__NEXT_DATA__"@, j)
    &&& before.len() + "<script"@.len() <= marker
    &&& forall|j: int|
        before.len() < j ==> !#[trigger] occurs_at(html.take(marker), "<script"@, j)
    &&& !tag.contains('>')
    &&& forall|j: int|
        0 <= j < contents.len() ==> !#[trigger] occurs_at(
            contents + "</script>"@ + behind,
            "</script>"@,
            j,
        )
}

/// The payload of a page is what stands, without white space at its ends, in the last
/// script element that is opened before the first `__NEXT_DATA__`.
#[verifier::spinoff_prover]
#[verifier::rlimit(40)]
pub proof fn law_payload(
    before: Seq<char>,
    tag: Seq<char>,
    contents: Seq<char>,
    behind: Seq<char>,
    marker: int,
)
    requires
        holds_payload(before, tag, contents, behind, marker),
    ensures
        payload_text(page_with_script(before, tag, contents, behind)) == Some(trimmed(contents)),
{
    reveal_strlit("<script");
    reveal_strlit(">");
    reveal_strlit("</script>");
    let html = page_with_script(before, tag, contents, behind);
    lemma_find_is(html, "__NEXT_DATA__"@, marker);
    let head = html.take(marker);
    let open = before.len() as int;
    assert(head.subrange(open, open + "<script"@.len()) =~= "<script"@);
    assert(occurs_at(head, "<script"@, open));
    law_rfind_last(head, "<script"@);
    assert(rfind_text(head, "<script"@) == Some(open)) by {
        let k = rfind_text(head, "<script"@)->0;
        if k > open {
            assert(!occurs_at(head, "<script"@, k));
        }
    }
    let element = html.skip(open);
    let rest = contents + "</script>"@ + behind;
    let opening = "<script"@ + tag;
    assert(element =~= opening + ">"@ + rest);
    let tag_end = opening.len() as int;
    assert(element.subrange(tag_end, tag_end + 1) =~= ">"@);
    assert forall|j: int| 0 <= j < tag_end implies !#[trigger] occurs_at(element, ">"@, j) by {
        if occurs_at(element, ">"@, j) {
            assert(element.subrange(j, j + 1)[0] == '>');
            assert(element[j] == '>');
            if j >= 7 {
                assert(tag[j - 7] == '>');
            } else {
                assert(opening[j] == "<script"@[j]);
            }
        }
    }
    lemma_find_is(element, ">"@, tag_end);
    assert(element.skip(tag_end + 1) =~= rest);
    assert(rest.subrange(contents.len() as int, contents.len() + "</script>"@.len() as int)
        =~= "</script>"@);
    lemma_find_is(rest, "</script>"@, contents.len() as int);
    assert(rest.take(contents.len() as int) =~= contents);
}

/// A text in which another stands is made of what is before it, of it, and of the rest.
proof fn lemma_cut(s: Seq<char>, p: Seq<char>, i: int)
    requires
        occurs_at(s, p, i),
    ensures
        s == s.take(i) + p + s.skip(i + p.len()),
{
    assert(s =~= s.take(i) + s.subrange(i, i + p.len()) + s.skip(i + p.len()));
}

/// There is no payload but that: a page with a payload has such a script element.
#[verifier::spinoff_prover]
#[verifier::rlimit(40)]
pub proof fn law_payload_source(html: Seq<char>) -> (r: (
    Seq<char>,
    Seq<char>,
    Seq<char>,
    Seq<char>,
    int,
))
    requires
        payload_text(html) is Some,
    ensures
        html == page_with_script(r.0, r.1, r.2, r.3),
        holds_payload(r.0, r.1, r.2, r.3, r.4),
{
    reveal_strlit("<script");
    reveal_strlit(">");
    reveal_strlit("</script>");
    law_find_first(html, "__NEXT_DATA__"@);
    let marker = find_text(html, "__NEXT_DATA__"@)->0;
    let head = html.take(marker);
    law_rfind_last(head, "<script"@);
    let open = rfind_text(head, "<script"@)->0;
    let element = html.skip(open);
    law_find_first(element, ">"@);
    let tag_end = find_text(element, ">"@)->0;
    let rest = element.skip(tag_end + 1);
    law_find_first(rest, "</script>"@);
    let close = find_text(rest, "</script>"@)->0;
    let before = html.take(open);
    assert(head.subrange(open, open + 7) =~= html.subrange(open, open + 7));
    lemma_cut(html, "<script"@, open);
    let inside = html.skip(open + 7);
    assert(element =~= "<script"@ + inside);
    assert(tag_end >= 7) by {
        assert(element.subrange(tag_end, tag_end + 1)[0] == '>');
        if tag_end < 7 {
            assert(element[tag_end] == "<script"@[tag_end]);
        }
    }
    let tag = inside.take(tag_end - 7);
    lemma_cut(element, ">"@, tag_end);
    assert(element.take(tag_end) =~= "<script"@ + tag);
    let contents = rest.take(close);
    let behind = rest.skip(close + 9);
    lemma_cut(rest, "</script>"@, close);
    assert(before + ("<script"@ + tag + ">"@ + (contents + "</script>"@ + behind))
        =~= page_with_script(before, tag, contents, behind));
    assert(html =~= before + element);
    assert(!tag.contains('>')) by {
        if tag.contains('>') {
            let k = choose|k: int| 0 <= k < tag.len() && tag[k] == '>';
            assert(element.subrange(k + 7, k + 8) =~= ">"@);
            assert(occurs_at(element, ">"@, k + 7));
        }
    }
    (before, tag, contents, behind, marker)
}

/// A page in which `__NEXT_DATA__` does not stand has no payload.
pub proof fn law_no_payload(html: Seq<char>)
    requires
        forall|j: int| !#[trigger] occurs_at(html, "__NEXT_DATA__"@, j),
    ensures
        payload_text(html) is None,
        payload_document(html) is None,
{
    law_find_first(html, "__NEXT_DATA__"@);
}

/// The document of a page is what its payload reads as, and there is none where the
/// payload is missing or cannot be read.
pub proof fn law_payload_document(html: Seq<char>, v: JsonValue)
    ensures
        payload_document(html) == Some(v) <==> {
            &&& payload_text(html) matches Some(text)
            &&& json_reading(text) == Ok::<JsonValue, Seq<char>>(v)
        },
{
}

/// A client identifier is made of 32 characters, each of them a hexadecimal digit.
pub proof fn law_client_id_digits(s: Seq<char>)
    ensures
        is_client_id(s) <==> s.len() == 32 && forall|i: int|
            0 <= i < s.len() ==> '0' <= #[trigger] s[i] <= '9' || 'a' <= s[i] <= 'f' || 'A' <= s[i]
                <= 'F',
{
    if is_client_id(s) {
        assert forall|i: int| 0 <= i < s.len() implies '0' <= #[trigger] s[i] <= '9' || 'a' <= s[i]
            <= 'f' || 'A' <= s[i] <= 'F' by {
            lemma_hex_digit(s[i]);
        }
    }
    if s.len() == 32 && forall|i: int|
        0 <= i < s.len() ==> '0' <= #[trigger] s[i] <= '9' || 'a' <= s[i] <= 'f' || 'A' <= s[i]
            <= 'F' {
        assert forall|i: int| 0 <= i < s.len() implies is_hex_digit(#[trigger] s[i]) by {
            lemma_hex_digit(s[i]);
        }
    }
}

/// The hexadecimal digits are 0 to 9, a to f and A to F.
proof fn lemma_hex_digit(c: char)
    ensures
        is_hex_digit(c) <==> '0' <= c <= '9' || 'a' <= c <= 'f' || 'A' <= c <= 'F',
{
}

/// How texts of the web player spell the name of the client identifier, in the order in
/// which the spellings are tried.
pub open spec fn client_id_spellings() -> Seq<Seq<char>> {
    seq!["\"clientId\":\""@, "\"client_id\":\""@, "clientId:\\\""@, "client_id:\\\""@]
}

/// A spelling leads to a client identifier: it stands, up to a quotation mark, behind the
/// first place of the spelling.
pub open spec fn leads_to_id(text: Seq<char>, spelling: Seq<char>, id: Seq<char>) -> bool {
    &&& between(text, spelling, "\""@) matches Some(candidate)
    &&& trimmed(candidate) == id
    &&& is_client_id(id)
}

/// The client identifier that the first of the spellings leads to is taken, and where none
/// of them leads to one there is none.
pub proof fn law_client_id_is_found(text: Seq<char>, k: int, id: Seq<char>)
    ensures
        0 <= k < client_id_spellings().len() && leads_to_id(text, client_id_spellings()[k], id) && (
        forall|j: int, other: Seq<char>|
            0 <= j < k ==> !#[trigger] leads_to_id(text, client_id_spellings()[j], other))
            ==> client_id_in(text) == Some(id),
        client_id_in(text) is Some ==> exists|j: int|
            0 <= j < client_id_spellings().len() && #[trigger] leads_to_id(
                text,
                client_id_spellings()[j],
                client_id_in(text)->0,
            ),
{
    let names = client_id_spellings();
    assert(names[0] == "\"clientId\":\""@);
    assert(names[1] == "\"client_id\":\""@);
    assert(names[2] == "clientId:\\\""@);
    assert(names[3] == "client_id:\\\""@);
    let found = Seq::new(4, |j: int| client_id_after(text, names[j]));
    assert forall|j: int| 0 <= j < 4 && #[trigger] found[j] is Some implies leads_to_id(
        text,
        names[j],
        found[j]->0,
    ) by {
    }
    assert(found[0] == client_id_after(text, names[0]));
    assert(found[1] == client_id_after(text, names[1]));
    assert(found[2] == client_id_after(text, names[2]));
    assert(found[3] == client_id_after(text, names[3]));
}

/// The scripts of a page are found one after the other: the first `src` attribute, if it
/// names a script, and then those of the rest of the page. A page without such attributes,
/// or with one that does not end, has no more.
pub proof fn law_scripts_are_found(a: Seq<char>, raw: Seq<char>, b: Seq<char>)
    requires
        forall|j: int|
            0 <= j < a.len() ==> !#[trigger] occurs_at(
                a + "src=\""@ + raw + "\""@ + b,
                "src=\""@,
                j,
            ),
        !raw.contains('"'),
    ensures
        script_addresses(a + "src=\""@ + raw + "\""@ + b) == (if exists|j: int|
            #[trigger] occurs_at(raw, ".js"@, j) {
            seq![script_address(raw)]
        } else {
            Seq::empty()
        }) + script_addresses(b),
{
    reveal_strlit("src=\"");
    reveal_strlit("\"");
    let html = a + "src=\""@ + raw + "\""@ + b;
    let rest = raw + "\""@ + b;
    assert(html.subrange(a.len() as int, a.len() as int + "src=\""@.len()) =~= "src=\""@);
    lemma_find_is(html, "src=\""@, a.len() as int);
    assert(html.skip(a.len() as int + 5) =~= rest);
    assert(rest.subrange(raw.len() as int, raw.len() as int + 1) =~= "\""@);
    assert forall|j: int| 0 <= j < raw.len() implies !#[trigger] occurs_at(rest, "\""@, j) by {
        if occurs_at(rest, "\""@, j) {
            assert(rest.subrange(j, j + 1)[0] == '"');
            assert(raw[j] == '"');
        }
    }
    lemma_find_is(rest, "\""@, raw.len() as int);
    assert(rest.take(raw.len() as int) =~= raw);
    assert(rest.skip(raw.len() as int + 1) =~= b);
    law_find_first(raw, ".js"@);
    assert(script_addresses(b) =~= Seq::<Seq<char>>::empty() + script_addresses(b));
}

/// A page has no scripts where no `src` attribute stands in it, or the first does not end.
pub proof fn law_no_scripts(html: Seq<char>, a: Seq<char>, raw: Seq<char>)
    ensures
        (forall|j: int| !#[trigger] occurs_at(html, "src=\""@, j)) ==> script_addresses(html)
            == Seq::<Seq<char>>::empty(),
        html == a + "src=\""@ + raw && !raw.contains('"') && (forall|j: int|
            0 <= j < a.len() ==> !#[trigger] occurs_at(html, "src=\""@, j)) ==> script_addresses(
            html,
        ) == Seq::<Seq<char>>::empty(),
{
    law_find_first(html, "src=\""@);
    if html == a + "src=\""@ + raw && !raw.contains('"') && (forall|j: int|
        0 <= j < a.len() ==> !#[trigger] occurs_at(html, "src=\""@, j)) {
        reveal_strlit("src=\"");
        reveal_strlit("\"");
        assert(html.subrange(a.len() as int, a.len() as int + 5) =~= "src=\""@);
        lemma_find_is(html, "src=\""@, a.len() as int);
        assert(html.skip(a.len() as int + 5) =~= raw);
        law_find_first(raw, "\""@);
        if let Some(j) = find_text(raw, "\""@) {
            assert(raw.subrange(j, j + 1)[0] == '"');
            assert(raw[j] == '"');
        }
    }
}

/// An address that begins with two slashes is given the scheme, one that begins with one
/// slash the scheme and the host, and any other is kept.
pub proof fn law_script_address(raw: Seq<char>)
    ensures
        raw.len() >= 2 && raw[0] == '/' && raw[1] == '/' ==> script_address(raw) == "https:"@ + raw,
        raw.len() >= 1 && raw[0] == '/' && !(raw.len() >= 2 && raw[1] == '/') ==> script_address(raw)
            == "https://open.spotify.com"@ + raw,
        !(raw.len() >= 1 && raw[0] == '/') ==> script_address(raw) == raw,
{
    reveal_strlit("//");
    reveal_strlit("/");
    if raw.len() >= 2 {
        assert(raw.subrange(0, 2)[0] == raw[0] && raw.subrange(0, 2)[1] == raw[1]);
        assert(raw.subrange(0, 2) == "//"@ <==> raw[0] == '/' && raw[1] == '/') by {
            if raw[0] == '/' && raw[1] == '/' {
                assert(raw.subrange(0, 2) =~= "//"@);
            }
        }
    }
    if raw.len() >= 1 {
        assert(raw.subrange(0, 1)[0] == raw[0]);
        assert(raw.subrange(0, 1) == "/"@ <==> raw[0] == '/') by {
            if raw[0] == '/' {
                assert(raw.subrange(0, 1) =~= "/"@);
            }
        }
    }
}

} // verus!
