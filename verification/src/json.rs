//! JSON documents and the ways of looking into them.

use vstd::prelude::*;

use crate::numeral::{
    decimal_text, is_digit, is_numeral, law_numeral_digits, law_numeral_is_unique,
    law_numeral_round_trip, lemma_digit, numeral_value, parse_u64,
};
use crate::text::{chars_of, same_text, views};

verus! {

/// The mathematical model of a JSON document.
///
/// A number is modelled by its value where that is an unsigned integer of 64
/// bits, and by `None` otherwise. An object is modelled by its members in their
/// order.
#[verifier::ext_equal]
pub enum JsonValue {
    Null,
    Bool(bool),
    Number(Option<u64>),
    Text(Seq<char>),
    Array(Seq<JsonValue>),
    Object(Seq<(Seq<char>, JsonValue)>),
}

/// A JSON document.
#[derive(Debug, PartialEq, Eq)]
pub enum Json {
    Null,
    Bool(bool),
    /// A number: its value where that is an unsigned integer of 64 bits.
    Number(Option<u64>),
    Text(String),
    Array(Vec<Json>),
    /// An object: its members, each with its key.
    Object(Vec<(String, Json)>),
}

impl Json {
    /// The model of this document.
    pub open spec fn value(self) -> JsonValue
        decreases self,
    {
        match self {
            Json::Null => JsonValue::Null,
            Json::Bool(b) => JsonValue::Bool(b),
            Json::Number(n) => JsonValue::Number(n),
            Json::Text(s) => JsonValue::Text(s@),
            Json::Array(items) => JsonValue::Array(
                Seq::new(
                    items@.len(),
                    |i: int|
                        if 0 <= i < items@.len() {
                            items@[i].value()
                        } else {
                            JsonValue::Null
                        },
                ),
            ),
            Json::Object(members) => JsonValue::Object(
                Seq::new(
                    members@.len(),
                    |i: int|
                        if 0 <= i < members@.len() {
                            (members@[i].0@, members@[i].1.value())
                        } else {
                            (Seq::empty(), JsonValue::Null)
                        },
                ),
            ),
        }
    }
}

impl View for Json {
    type V = JsonValue;

    open spec fn view(&self) -> JsonValue {
        self.value()
    }
}

/// The models of a list of documents.
pub open spec fn json_views(items: Seq<Json>) -> Seq<JsonValue> {
    items.map_values(|j: Json| j@)
}

/// The models of the members of an object.
pub open spec fn member_views(members: Seq<(String, Json)>) -> Seq<(Seq<char>, JsonValue)> {
    members.map_values(|m: (String, Json)| (m.0@, m.1@))
}

/// The model of an array holds the models of its items.
pub broadcast proof fn lemma_array_view(items: Vec<Json>)
    ensures
        #[trigger] Json::Array(items).value() == JsonValue::Array(json_views(items@)),
{
    assert(Json::Array(items).value()->Array_0 =~= json_views(items@));
}

/// The model of an object holds the models of its members.
pub broadcast proof fn lemma_object_view(members: Vec<(String, Json)>)
    ensures
        #[trigger] Json::Object(members).value() == JsonValue::Object(member_views(members@)),
{
    assert(Json::Object(members).value()->Object_0 =~= member_views(members@));
}

impl Clone for Json {
    fn clone(&self) -> (r: Json)
        ensures
            r@ == self@,
        decreases self,
    {
        broadcast use {lemma_array_view, lemma_object_view};
        match self {
            Json::Null => Json::Null,
            Json::Bool(b) => Json::Bool(*b),
            Json::Number(n) => Json::Number(*n),
            Json::Text(s) => Json::Text(s.clone()),
            Json::Array(items) => {
                let mut out: Vec<Json> = Vec::new();
                let mut i: usize = 0;
                while i < items.len()
                    invariant
                        self matches Json::Array(x) && x == items,
                        i <= items.len(),
                        json_views(out@) == json_views(items@).take(i as int),
                    decreases items.len() - i,
                {
                    let ghost before = out@;
                    let item = items[i].clone();
                    out.push(item);
                    assert(json_views(out@) == json_views(before).push(item@));
                    assert(json_views(items@).take(i + 1) == json_views(items@).take(i as int).push(
                        json_views(items@)[i as int],
                    ));
                    i = i + 1;
                }
                assert(json_views(items@).take(i as int) == json_views(items@));
                Json::Array(out)
            },
            Json::Object(members) => {
                let mut out: Vec<(String, Json)> = Vec::new();
                let mut i: usize = 0;
                while i < members.len()
                    invariant
                        self matches Json::Object(x) && x == members,
                        i <= members.len(),
                        member_views(out@) == member_views(members@).take(i as int),
                    decreases members.len() - i,
                {
                    let ghost before = out@;
                    let member = (members[i].0.clone(), members[i].1.clone());
                    out.push(member);
                    assert(member_views(out@) == member_views(before).push((member.0@, member.1@)));
                    assert(member_views(members@).take(i + 1) == member_views(members@).take(
                        i as int,
                    ).push(member_views(members@)[i as int]));
                    i = i + 1;
                }
                assert(member_views(members@).take(i as int) == member_views(members@));
                Json::Object(out)
            },
        }
    }
}

// ── Looking into a document ──────────────────────────────────────────────────

/// The text that `o` holds.
pub open spec fn opt_str(o: Option<&str>) -> Option<Seq<char>> {
    match o {
        Some(s) => Some(s@),
        None => None,
    }
}

/// The text that `o` holds.
pub open spec fn opt_string(o: Option<String>) -> Option<Seq<char>> {
    match o {
        Some(s) => Some(s@),
        None => None,
    }
}

/// The model of the document that `o` holds.
pub open spec fn opt_json(o: Option<&Json>) -> Option<JsonValue> {
    match o {
        Some(j) => Some(j@),
        None => None,
    }
}

/// `a` if it holds something, else `b`.
pub open spec fn or_else<T>(a: Option<T>, b: Option<T>) -> Option<T> {
    if a is Some {
        a
    } else {
        b
    }
}

/// The value of the first member with the key `key`.
pub open spec fn member_of(members: Seq<(Seq<char>, JsonValue)>, key: Seq<char>) -> Option<JsonValue>
    decreases members.len(),
{
    if members.len() == 0 {
        None
    } else if members[0].0 == key {
        Some(members[0].1)
    } else {
        member_of(members.skip(1), key)
    }
}

/// The position in an array that a path token names: a decimal numeral without
/// leading zeros.
pub open spec fn token_index(token: Seq<char>) -> Option<nat> {
    if is_numeral(token) && (token[0] == '0' ==> token.len() == 1) {
        Some(numeral_value(token))
    } else {
        None
    }
}

/// No key stands twice among the members.
pub open spec fn distinct_keys(members: Seq<(Seq<char>, JsonValue)>) -> bool {
    forall|i: int, j: int| 0 <= i < j < members.len() ==> (#[trigger] members[i]).0 != (
    #[trigger] members[j]).0
}

impl JsonValue {
    /// No object in this document has two members with the same key.
    pub open spec fn well_formed(self) -> bool
        decreases self,
    {
        match self {
            JsonValue::Array(items) => forall|i: int|
                0 <= i < items.len() ==> (#[trigger] items[i]).well_formed(),
            JsonValue::Object(members) => distinct_keys(members) && forall|i: int|
                0 <= i < members.len() ==> (#[trigger] members[i]).1.well_formed(),
            _ => true,
        }
    }

    /// The member of an object with the key `key`.
    pub open spec fn get(self, key: Seq<char>) -> Option<JsonValue> {
        match self {
            JsonValue::Object(members) => member_of(members, key),
            _ => None,
        }
    }

    /// What one path token leads to: in an object the member with that key, in
    /// an array the item at that position.
    pub open spec fn follow(self, token: Seq<char>) -> Option<JsonValue> {
        match self {
            JsonValue::Object(members) => member_of(members, token),
            JsonValue::Array(items) => match token_index(token) {
                Some(i) => if i < items.len() {
                    Some(items[i as int])
                } else {
                    None
                },
                None => None,
            },
            _ => None,
        }
    }

    /// What a path leads to, one token after the other.
    pub open spec fn pointer(self, path: Seq<Seq<char>>) -> Option<JsonValue>
        decreases path.len(),
    {
        if path.len() == 0 {
            Some(self)
        } else {
            match self.follow(path[0]) {
                Some(next) => next.pointer(path.skip(1)),
                None => None,
            }
        }
    }

    /// The text of a text value.
    pub open spec fn as_text(self) -> Option<Seq<char>> {
        match self {
            JsonValue::Text(s) => Some(s),
            _ => None,
        }
    }

    /// The value of an unsigned integer of 64 bits.
    pub open spec fn as_u64(self) -> Option<u64> {
        match self {
            JsonValue::Number(n) => n,
            _ => None,
        }
    }

    /// The truth value of a boolean.
    pub open spec fn as_bool(self) -> Option<bool> {
        match self {
            JsonValue::Bool(b) => Some(b),
            _ => None,
        }
    }

    /// The items of an array.
    pub open spec fn as_array(self) -> Option<Seq<JsonValue>> {
        match self {
            JsonValue::Array(items) => Some(items),
            _ => None,
        }
    }

    /// The text of the member `key`, if there is one and it is text.
    pub open spec fn text_member(self, key: Seq<char>) -> Option<Seq<char>> {
        match self.get(key) {
            Some(v) => v.as_text(),
            None => None,
        }
    }

    /// The number of the member `key`, if there is one and it is an unsigned
    /// integer of 64 bits.
    pub open spec fn u64_member(self, key: Seq<char>) -> Option<u64> {
        match self.get(key) {
            Some(v) => v.as_u64(),
            None => None,
        }
    }

    /// The truth value of the member `key`, if there is one and it is a boolean.
    pub open spec fn bool_member(self, key: Seq<char>) -> Option<bool> {
        match self.get(key) {
            Some(v) => v.as_bool(),
            None => None,
        }
    }

    /// The items of the member `key`, if there is one and it is an array.
    pub open spec fn array_member(self, key: Seq<char>) -> Option<Seq<JsonValue>> {
        match self.get(key) {
            Some(v) => v.as_array(),
            None => None,
        }
    }

    /// The text that `path` leads to, if it leads to text.
    pub open spec fn text_at(self, path: Seq<Seq<char>>) -> Option<Seq<char>> {
        match self.pointer(path) {
            Some(v) => v.as_text(),
            None => None,
        }
    }

    /// The number that `path` leads to, if it leads to an unsigned integer of 64
    /// bits.
    pub open spec fn u64_at(self, path: Seq<Seq<char>>) -> Option<u64> {
        match self.pointer(path) {
            Some(v) => v.as_u64(),
            None => None,
        }
    }
}

/// Where keys are distinct, every member is found under its key.
pub proof fn law_member_found(members: Seq<(Seq<char>, JsonValue)>, i: int)
    requires
        distinct_keys(members),
        0 <= i < members.len(),
    ensures
        member_of(members, members[i].0) == Some(members[i].1),
    decreases members.len(),
{
    if i > 0 {
        assert(members[0].0 != members[i].0);
        let rest = members.skip(1);
        assert forall|j: int, k: int| 0 <= j < k < rest.len() implies (#[trigger] rest[j]).0 != (
        #[trigger] rest[k]).0 by {
            assert(rest[j] == members[j + 1] && rest[k] == members[k + 1]);
        }
        law_member_found(rest, i - 1);
        assert(rest[i - 1] == members[i]);
    }
}

/// The position among `len` items that a path token names.
fn index_from_token(token: &str, len: usize) -> (r: Option<usize>)
    ensures
        match token_index(token@) {
            Some(n) => if n < len {
                r == Some(n as usize)
            } else {
                r is None
            },
            None => r is None,
        },
{
    let chars = chars_of(token);
    if chars.len() == 0 || chars[0] == '+' || (chars[0] == '0' && chars.len() != 1) {
        assert(token@.len() > 0 && token@[0] == '+' ==> !is_digit(token@[0]));
        return None;
    }
    match parse_u64(token) {
        Some(n) => {
            if n < len as u64 {
                Some(n as usize)
            } else {
                None
            }
        },
        None => None,
    }
}

/// `o` with its text in a string of its own.
pub fn owned(o: Option<&str>) -> (r: Option<String>)
    ensures
        opt_string(r) == opt_str(o),
{
    match o {
        Some(s) => Some(s.to_string()),
        None => None,
    }
}

impl Json {
    /// The member of an object with the key `key`.
    pub fn get(&self, key: &str) -> (r: Option<&Json>)
        ensures
            opt_json(r) == self@.get(key@),
    {
        broadcast use {lemma_array_view, lemma_object_view};
        match self {
            Json::Object(members) => {
                let ghost all = member_views(members@);
                let mut i: usize = 0;
                assert(all.skip(0) == all);
                while i < members.len()
                    invariant
                        i <= members.len(),
                        all == member_views(members@),
                        self@.get(key@) == member_of(all, key@),
                        member_of(all, key@) == member_of(all.skip(i as int), key@),
                    decreases members.len() - i,
                {
                    assert(all.skip(i as int).skip(1) == all.skip(i + 1));
                    if same_text(members[i].0.as_str(), key) {
                        return Some(&members[i].1);
                    }
                    i = i + 1;
                }
                None
            },
            _ => None,
        }
    }

    /// What one path token leads to.
    pub fn follow(&self, token: &str) -> (r: Option<&Json>)
        ensures
            opt_json(r) == self@.follow(token@),
    {
        broadcast use {lemma_array_view, lemma_object_view};
        match self {
            Json::Object(_) => self.get(token),
            Json::Array(items) => match index_from_token(token, items.len()) {
                Some(i) => Some(&items[i]),
                None => None,
            },
            _ => None,
        }
    }

    /// What a path leads to, one token after the other.
    pub fn pointer(&self, path: &[&str]) -> (r: Option<&Json>)
        ensures
            opt_json(r) == self@.pointer(views(path@)),
    {
        let ghost all = views(path@);
        let mut here: &Json = self;
        let mut i: usize = 0;
        assert(all.skip(0) == all);
        while i < path.len()
            invariant
                i <= path.len(),
                all == views(path@),
                self@.pointer(all) == here@.pointer(all.skip(i as int)),
            decreases path.len() - i,
        {
            assert(all.skip(i as int).skip(1) == all.skip(i + 1));
            match here.follow(path[i]) {
                Some(next) => {
                    here = next;
                },
                None => {
                    return None;
                },
            }
            i = i + 1;
        }
        Some(here)
    }

    /// The text of a text value.
    pub fn as_str(&self) -> (r: Option<&str>)
        ensures
            opt_str(r) == self@.as_text(),
    {
        match self {
            Json::Text(s) => Some(s.as_str()),
            _ => None,
        }
    }

    /// The value of an unsigned integer of 64 bits.
    pub fn as_u64(&self) -> (r: Option<u64>)
        ensures
            r == self@.as_u64(),
    {
        match self {
            Json::Number(n) => *n,
            _ => None,
        }
    }

    /// The truth value of a boolean.
    pub fn as_bool(&self) -> (r: Option<bool>)
        ensures
            r == self@.as_bool(),
    {
        match self {
            Json::Bool(b) => Some(*b),
            _ => None,
        }
    }

    /// The items of an array.
    pub fn as_array(&self) -> (r: Option<&Vec<Json>>)
        ensures
            match r {
                Some(items) => self@.as_array() == Some(json_views(items@)),
                None => self@.as_array() is None,
            },
    {
        broadcast use lemma_array_view;
        match self {
            Json::Array(items) => Some(items),
            _ => None,
        }
    }

    /// Whether this is the null value.
    pub fn is_null(&self) -> (r: bool)
        ensures
            r == (self@ is Null),
    {
        match self {
            Json::Null => true,
            _ => false,
        }
    }

    /// The text of the member `key`, if there is one and it is text.
    pub fn text_member(&self, key: &str) -> (r: Option<&str>)
        ensures
            opt_str(r) == self@.text_member(key@),
    {
        match self.get(key) {
            Some(v) => v.as_str(),
            None => None,
        }
    }

    /// The number of the member `key`, if there is one and it is an unsigned
    /// integer of 64 bits.
    pub fn u64_member(&self, key: &str) -> (r: Option<u64>)
        ensures
            r == self@.u64_member(key@),
    {
        match self.get(key) {
            Some(v) => v.as_u64(),
            None => None,
        }
    }

    /// The truth value of the member `key`, if there is one and it is a boolean.
    pub fn bool_member(&self, key: &str) -> (r: Option<bool>)
        ensures
            r == self@.bool_member(key@),
    {
        match self.get(key) {
            Some(v) => v.as_bool(),
            None => None,
        }
    }

    /// The items of the member `key`, if there is one and it is an array.
    pub fn array_member(&self, key: &str) -> (r: Option<&Vec<Json>>)
        ensures
            match r {
                Some(items) => self@.array_member(key@) == Some(json_views(items@)),
                None => self@.array_member(key@) is None,
            },
    {
        match self.get(key) {
            Some(v) => v.as_array(),
            None => None,
        }
    }

    /// The text that `path` leads to, if it leads to text.
    pub fn text_at(&self, path: &[&str]) -> (r: Option<&str>)
        ensures
            opt_str(r) == self@.text_at(views(path@)),
    {
        match self.pointer(path) {
            Some(v) => v.as_str(),
            None => None,
        }
    }

    /// The number that `path` leads to, if it leads to an unsigned integer of 64
    /// bits.
    pub fn u64_at(&self, path: &[&str]) -> (r: Option<u64>)
        ensures
            r == self@.u64_at(views(path@)),
    {
        match self.pointer(path) {
            Some(v) => v.as_u64(),
            None => None,
        }
    }
}

// ── Laws ─────────────────────────────────────────────────────────────────────

/// A member of an object is found under its key where no earlier member has that key, and
/// nothing is found under a key that no member has, or in what is no object.
pub proof fn law_get(members: Seq<(Seq<char>, JsonValue)>, key: Seq<char>, other: JsonValue)
    ensures
        forall|i: int|
            0 <= i < members.len() && (#[trigger] members[i]).0 == key && (forall|j: int|
                0 <= j < i ==> (#[trigger] members[j]).0 != key) ==> JsonValue::Object(members).get(
                key,
            ) == Some(members[i].1),
        (forall|i: int| 0 <= i < members.len() ==> (#[trigger] members[i]).0 != key)
            ==> JsonValue::Object(members).get(key) is None,
        !(other is Object) ==> other.get(key) is None,
    decreases members.len(),
{
    if members.len() > 0 && members[0].0 != key {
        let rest = members.skip(1);
        law_get(rest, key, other);
        assert forall|i: int|
            0 <= i < members.len() && (#[trigger] members[i]).0 == key && (forall|j: int|
                0 <= j < i ==> (#[trigger] members[j]).0 != key) implies JsonValue::Object(
            members,
        ).get(key) == Some(members[i].1) by {
            assert(rest[i - 1] == members[i]);
            assert forall|j: int| 0 <= j < i - 1 implies (#[trigger] rest[j]).0 != key by {
                assert(rest[j] == members[j + 1]);
            }
        }
        if forall|i: int| 0 <= i < members.len() ==> (#[trigger] members[i]).0 != key {
            assert forall|i: int| 0 <= i < rest.len() implies (#[trigger] rest[i]).0 != key by {
                assert(rest[i] == members[i + 1]);
            }
        }
    }
}

/// A path token leads to the member of an object with that key, and to the item of an
/// array whose position it is the numeral of. Nothing else can be followed.
pub proof fn law_follow(v: JsonValue, token: Seq<char>, items: Seq<JsonValue>, i: nat)
    ensures
        v is Object ==> v.follow(token) == v.get(token),
        !(v is Object) && !(v is Array) ==> v.follow(token) is None,
        i < items.len() ==> JsonValue::Array(items).follow(decimal_text(i)) == Some(items[i as int]),
        i >= items.len() ==> JsonValue::Array(items).follow(decimal_text(i)) is None,
        JsonValue::Array(items).follow(token) is Some ==> exists|n: nat|
            n < items.len() && token == #[trigger] decimal_text(n),
{
    law_numeral_round_trip(i);
    if i > 0 {
        law_numeral_digits(i, 0);
    } else {
        law_numeral_digits(0, 0);
    }
    assert(token_index(decimal_text(i)) == Some(i));
    if JsonValue::Array(items).follow(token) is Some {
        assert forall|k: int| 0 <= k < token.len() implies '0' <= #[trigger] token[k] <= '9' by {
            lemma_digit(token[k]);
        }
        law_numeral_is_unique(token);
    }
}

/// The empty path leads to the document itself, and a path with a token in front leads to
/// where the rest leads from what the token leads to.
pub proof fn law_pointer(v: JsonValue, token: Seq<char>, rest: Seq<Seq<char>>)
    ensures
        v.pointer(Seq::empty()) == Some(v),
        v.follow(token) is None ==> v.pointer(seq![token] + rest) is None,
        v.follow(token) matches Some(next) ==> v.pointer(seq![token] + rest) == next.pointer(rest),
{
    assert((seq![token] + rest).skip(1) == rest);
}

/// A member is read as text exactly where it is a text, and then it is that text; the
/// same holds of numbers, truth values and arrays.
pub proof fn law_typed_members(
    v: JsonValue,
    key: Seq<char>,
    s: Seq<char>,
    n: u64,
    b: bool,
    items: Seq<JsonValue>,
)
    ensures
        v.text_member(key) == Some(s) <==> v.get(key) == Some(JsonValue::Text(s)),
        v.u64_member(key) == Some(n) <==> v.get(key) == Some(JsonValue::Number(Some(n))),
        v.bool_member(key) == Some(b) <==> v.get(key) == Some(JsonValue::Bool(b)),
        v.array_member(key) == Some(items) <==> v.get(key) == Some(JsonValue::Array(items)),
{
}

/// What a path leads to is read as text exactly where it is a text, and then it is that
/// text; the same holds of numbers.
pub proof fn law_typed_paths(v: JsonValue, path: Seq<Seq<char>>, s: Seq<char>, n: u64)
    ensures
        v.text_at(path) == Some(s) <==> v.pointer(path) == Some(JsonValue::Text(s)),
        v.u64_at(path) == Some(n) <==> v.pointer(path) == Some(JsonValue::Number(Some(n))),
{
}

/// A document is read as text exactly where it is a text, and then it is that text; the
/// same holds of numbers, truth values and arrays.
pub proof fn law_typed_documents(
    v: JsonValue,
    s: Seq<char>,
    n: u64,
    b: bool,
    items: Seq<JsonValue>,
)
    ensures
        v.as_text() == Some(s) <==> v == JsonValue::Text(s),
        v.as_u64() == Some(n) <==> v == JsonValue::Number(Some(n)),
        v.as_bool() == Some(b) <==> v == JsonValue::Bool(b),
        v.as_array() == Some(items) <==> v == JsonValue::Array(items),
{
}

/// In a document that is well formed no object has a key twice, and everything in it is
/// well formed.
pub proof fn law_well_formed(v: JsonValue)
    requires
        v.well_formed(),
    ensures
        v matches JsonValue::Array(items) ==> forall|i: int|
            0 <= i < items.len() ==> (#[trigger] items[i]).well_formed(),
        v matches JsonValue::Object(members) ==> {
            &&& forall|i: int, j: int|
                0 <= i < j < members.len() ==> (#[trigger] members[i]).0 != (
                #[trigger] members[j]).0
            &&& forall|i: int| 0 <= i < members.len() ==> (#[trigger] members[i]).1.well_formed()
        },
{
}

/// The model of a document has its truth values, numbers and texts, and the models of its
/// items and members in their order.
pub proof fn law_document_model(
    b: bool,
    n: Option<u64>,
    s: String,
    items: Vec<Json>,
    members: Vec<(String, Json)>,
)
    ensures
        Json::Null@ == JsonValue::Null,
        Json::Bool(b)@ == JsonValue::Bool(b),
        Json::Number(n)@ == JsonValue::Number(n),
        Json::Text(s)@ == JsonValue::Text(s@),
        Json::Array(items)@ matches JsonValue::Array(models) && models.len() == items@.len()
            && forall|i: int| 0 <= i < items@.len() ==> #[trigger] models[i] == items@[i]@,
        Json::Object(members)@ matches JsonValue::Object(models) && models.len() == members@.len()
            && forall|i: int|
            0 <= i < members@.len() ==> (#[trigger] models[i]).0 == members@[i].0@ && models[i].1
                == members@[i].1@,
{
}

/// Something found is modelled by what it is, and nothing by nothing.
pub proof fn law_found_model(j: &Json, s: &str, t: String)
    ensures
        opt_json(Some(j)) == Some(j@) && opt_json(None) is None,
        opt_str(Some(s)) == Some(s@) && opt_str(None) is None,
        opt_string(Some(t)) == Some(t@) && opt_string(None) is None,
{
}

/// Of two things the first that is there is taken.
pub proof fn law_first_that_is_there<T>(x: T, b: Option<T>)
    ensures
        or_else(Some(x), b) == Some(x),
        or_else(None, b) == b,
{
}

} // verus!
