//! Reading records out of a JSON document: the saved state of older
//! versions, catalogue rows and the cached home lists.
//!
//! The document is held as `Json`, a tree of plain values: a number is held
//! by what it reads as, an unsigned and a signed integer when it is an
//! integer that fits; an object by its entries, each key once.

use vstd::prelude::*;
use crate::text::{owned, str_eq};
use crate::catalog::{Episode, Title, TitleView};
use crate::library::{HistoryEntry, MarathonItem, State, StateView, Watched, HistoryView, MarathonView};
use std::collections::HashMap;

verus! {

/// A JSON value.
pub enum Json {
    Null,
    Bool(bool),
    /// A number: its value as a `u64` and as an `i64`, where it is an
    /// integer in range.
    Number(Option<u64>, Option<i64>),
    Str(String),
    Array(Vec<Json>),
    Object(Vec<(String, Json)>),
}

#[verifier::external_type_specification]
#[verifier::external_body]
pub struct ExJsonValue(serde_json::Value);

/// The value that `serde_json::from_str::<Value>` reads from a text, as a
/// `Json`; nothing where the text is not one JSON value.
pub uninterp spec fn json_text(s: Seq<char>) -> Option<Json>;

/// The message of the error that `serde_json::from_str::<Value>` gives on a
/// text that is not one JSON value (the error's `Display` text).
pub uninterp spec fn json_error(s: Seq<char>) -> Seq<char>;

/// Reads a JSON text with `serde_json::from_str::<Value>`: the value read
/// (the name `json_text`), or the parser's message (the name `json_error`).
#[verifier::external_body]
pub(crate) fn parse_json_text(s: &str) -> (r: Result<Json, String>)
    ensures
        match r {
            Ok(v) => json_text(s@) == Some(v),
            Err(e) => json_text(s@) is None && e@ == json_error(s@),
        },
{
    match serde_json::from_str::<serde_json::Value>(s) {
        Ok(v) => Ok(json_of_value(&v)),
        Err(e) => Err(e.to_string()),
    }
}

/// A `serde_json::Value` as a `Json`, variant for variant. Nothing is
/// stated of it: it serves `parse_json_text`, whose result is named.
#[verifier::external_body]
fn json_of_value(v: &serde_json::Value) -> Json {
    match v {
        serde_json::Value::Null => Json::Null,
        serde_json::Value::Bool(b) => Json::Bool(*b),
        serde_json::Value::Number(n) => Json::Number(n.as_u64(), n.as_i64()),
        serde_json::Value::String(t) => Json::Str(t.clone()),
        serde_json::Value::Array(a) => Json::Array(a.iter().map(json_of_value).collect()),
        serde_json::Value::Object(m) => Json::Object(m.iter().map(|(k, x)| (k.clone(), json_of_value(x))).collect()),
    }
}

/// Position of the entry with key `key`.
pub open spec fn key_pos(entries: Seq<(String, Json)>, key: Seq<char>) -> Option<int>
    decreases entries.len(),
{
    if entries.len() == 0 {
        None
    } else {
        match key_pos(entries.drop_last(), key) {
            Some(j) => Some(j),
            None => if entries.last().0@ == key { Some(entries.len() - 1) } else { None },
        }
    }
}

/// The member `key` of an object; nothing for a missing key or a value that
/// is not an object.
pub open spec fn get_spec(v: Json, key: Seq<char>) -> Option<Json> {
    match v {
        Json::Object(entries) => match key_pos(entries@, key) {
            Some(j) => Some(entries@[j].1),
            None => None,
        },
        _ => None,
    }
}

pub open spec fn as_u64_spec(v: Option<Json>) -> Option<u64> {
    match v {
        Some(Json::Number(u, _)) => u,
        _ => None,
    }
}

pub open spec fn as_i64_spec(v: Option<Json>) -> Option<i64> {
    match v {
        Some(Json::Number(_, i)) => i,
        _ => None,
    }
}

pub open spec fn as_str_spec(v: Option<Json>) -> Option<Seq<char>> {
    match v {
        Some(Json::Str(s)) => Some(s@),
        _ => None,
    }
}

pub open spec fn as_bool_spec(v: Option<Json>) -> Option<bool> {
    match v {
        Some(Json::Bool(b)) => Some(b),
        _ => None,
    }
}

pub open spec fn as_array_spec(v: Option<Json>) -> Option<Seq<Json>> {
    match v {
        Some(Json::Array(a)) => Some(a@),
        _ => None,
    }
}

/// The first of two optional values that is there.
pub open spec fn or_else<T>(a: Option<T>, b: Option<T>) -> Option<T> {
    match a {
        Some(x) => Some(x),
        None => b,
    }
}

proof fn lemma_key_pos(entries: Seq<(String, Json)>, key: Seq<char>)
    ensures
        key_pos(entries, key) matches Some(j) ==> 0 <= j < entries.len() && entries[j].0@ == key,
        key_pos(entries, key) is None ==> forall|k: int| 0 <= k < entries.len() ==> entries[k].0@ != key,
    decreases entries.len(),
{
    if entries.len() > 0 {
        lemma_key_pos(entries.drop_last(), key);
        assert forall|k: int| 0 <= k < entries.len() - 1 implies entries[k] == entries.drop_last()[k] by {}
    }
}

proof fn lemma_prefix_key_pos(entries: Seq<(String, Json)>, key: Seq<char>, n: int)
    requires
        0 <= n <= entries.len(),
        key_pos(entries.take(n), key) is Some,
    ensures
        key_pos(entries, key) == key_pos(entries.take(n), key),
    decreases entries.len() - n,
{
    if n < entries.len() {
        assert(entries.take(n + 1).drop_last() =~= entries.take(n));
        lemma_prefix_key_pos(entries, key, n + 1);
    } else {
        assert(entries.take(n) =~= entries);
    }
}

impl Json {
    /// The member `key` of an object, taken out of it; nothing for a missing
    /// key or a value that is not an object.
    pub fn take(self, key: &str) -> (r: Option<Json>)
        ensures
            r == get_spec(self, key@),
    {
        let ghost whole = self;
        match self {
            Json::Object(mut entries) => {
                let ghost e0 = entries@;
                let mut i: usize = 0;
                while i < entries.len()
                    invariant
                        i <= entries@.len(),
                        entries@ == e0,
                        whole == self,
                        whole == Json::Object(entries),
                        key_pos(e0.take(i as int), key@) is None,
                    decreases entries@.len() - i,
                {
                    assert(e0.take(i as int + 1).drop_last() =~= e0.take(i as int));
                    if str_eq(entries[i].0.as_str(), key) {
                        proof {
                            assert(key_pos(e0.take(i as int + 1), key@) == Some(i as int));
                            lemma_prefix_key_pos(e0, key@, i as int + 1);
                            assert(get_spec(whole, key@) == Some(e0[i as int].1));
                        }
                        let (_, v) = entries.remove(i);
                        assert(v == e0[i as int].1);
                        return Some(v);
                    }
                    i = i + 1;
                }
                assert(e0.take(e0.len() as int) =~= e0);
                None
            },
            _ => None,
        }
    }

    /// The member `key` of an object.
    pub fn get(&self, key: &str) -> (r: Option<&Json>)
        ensures
            match get_spec(*self, key@) {
                Some(x) => r matches Some(y) && *y == x,
                None => r is None,
            },
    {
        match self {
            Json::Object(entries) => {
                let ghost want = match key_pos(entries@, key@) {
                    Some(j) => Some(entries@[j].1),
                    None => None,
                };
                assert(get_spec(*self, key@) == want);
                let mut i: usize = 0;
                while i < entries.len()
                    invariant
                        i <= entries@.len(),
                        get_spec(*self, key@) == want,
                        want == match key_pos(entries@, key@) {
                            Some(j) => Some(entries@[j].1),
                            None => None,
                        },
                        key_pos(entries@.take(i as int), key@) is None,
                    decreases entries@.len() - i,
                {
                    assert(entries@.take(i as int + 1).drop_last() =~= entries@.take(i as int));
                    if str_eq(entries[i].0.as_str(), key) {
                        proof {
                            assert(key_pos(entries@.take(i as int + 1), key@) == Some(i as int));
                            lemma_prefix_key_pos(entries@, key@, i as int + 1);
                        }
                        return Some(&entries[i].1);
                    }
                    i = i + 1;
                }
                assert(entries@.take(entries@.len() as int) =~= entries@);
                None
            },
            _ => None,
        }
    }
}

/// `v.as_u64()` of an optional value.
pub fn as_u64(v: Option<&Json>) -> (r: Option<u64>)
    ensures
        r == as_u64_spec(match v { Some(x) => Some(*x), None => None }),
{
    match v {
        Some(Json::Number(u, _)) => *u,
        _ => None,
    }
}

/// `v.as_i64()` of an optional value.
pub fn as_i64(v: Option<&Json>) -> (r: Option<i64>)
    ensures
        r == as_i64_spec(match v { Some(x) => Some(*x), None => None }),
{
    match v {
        Some(Json::Number(_, i)) => *i,
        _ => None,
    }
}

/// `v.as_bool()` of an optional value.
pub fn as_bool(v: Option<&Json>) -> (r: Option<bool>)
    ensures
        r == as_bool_spec(match v { Some(x) => Some(*x), None => None }),
{
    match v {
        Some(Json::Bool(b)) => Some(*b),
        _ => None,
    }
}

/// `v.as_str()` of an optional value, copied.
pub fn as_string(v: Option<&Json>) -> (r: Option<String>)
    ensures
        match as_str_spec(match v { Some(x) => Some(*x), None => None }) {
            Some(s) => r matches Some(t) && t@ == s,
            None => r is None,
        },
{
    match v {
        Some(Json::Str(s)) => Some(s.clone()),
        _ => None,
    }
}


/// The text of an optional string, or the empty text.
pub open spec fn text_or_empty(s: Option<Seq<char>>) -> Seq<char> {
    match s {
        Some(t) => t,
        None => Seq::empty(),
    }
}

/// A title with only an id and a name.
pub open spec fn bare_title(id: u64, name: Seq<char>) -> TitleView {
    TitleView {
        id,
        name,
        year: None,
        title_type: None,
        poster: None,
        description: None,
        season_count: None,
        genres: None,
        runtime: None,
        episode_count: None,
        release_date: None,
    }
}

/// A genre of a catalogue row: a plain string, or an object's
/// `display_name`, else its `name`.
pub open spec fn genre_name(g: Json) -> Option<Seq<char>> {
    match g {
        Json::Str(s) => Some(s@),
        _ => or_else(as_str_spec(get_spec(g, "display_name"@)), as_str_spec(get_spec(g, "name"@))),
    }
}

/// The genres of a row, skipping those without a name.
pub open spec fn genre_names(a: Seq<Json>) -> Seq<Seq<char>>
    decreases a.len(),
{
    if a.len() == 0 {
        Seq::empty()
    } else {
        match genre_name(a.last()) {
            Some(n) => genre_names(a.drop_last()).push(n),
            None => genre_names(a.drop_last()),
        }
    }
}

/// A catalogue row as a title: it needs an id (`id`, else `title_id`); an
/// empty `title_type` counts as none.
pub open spec fn from_value_spec(r: Json) -> Option<TitleView> {
    match or_else(as_u64_spec(get_spec(r, "id"@)), as_u64_spec(get_spec(r, "title_id"@))) {
        None => None,
        Some(id) => Some(TitleView {
            id,
            name: text_or_empty(as_str_spec(get_spec(r, "name"@))),
            year: as_i64_spec(get_spec(r, "year"@)),
            title_type: match as_str_spec(get_spec(r, "title_type"@)) {
                Some(t) => if t.len() == 0 { None } else { Some(t) },
                None => None,
            },
            poster: as_str_spec(get_spec(r, "poster"@)),
            description: as_str_spec(get_spec(r, "description"@)),
            season_count: as_i64_spec(get_spec(r, "season_count"@)),
            genres: match as_array_spec(get_spec(r, "genres"@)) {
                Some(a) => Some(genre_names(a)),
                None => None,
            },
            runtime: as_i64_spec(get_spec(r, "runtime"@)),
            episode_count: as_i64_spec(get_spec(r, "episode_count"@)),
            release_date: as_str_spec(get_spec(r, "release_date"@)),
        }),
    }
}

fn genres_of(a: &Vec<Json>) -> (r: Vec<String>)
    ensures
        r@.map_values(|x: String| x@) == genre_names(a@),
{
    let mut out: Vec<String> = Vec::new();
    let mut i: usize = 0;
    while i < a.len()
        invariant
            i <= a@.len(),
            out@.map_values(|x: String| x@) == genre_names(a@.take(i as int)),
        decreases a@.len() - i,
    {
        assert(a@.take(i as int + 1).drop_last() =~= a@.take(i as int));
        let g = &a[i];
        let name: Option<String> = match g {
            Json::Str(s) => Some(s.clone()),
            _ => match as_string(g.get("display_name")) {
                Some(n) => Some(n),
                None => as_string(g.get("name")),
            },
        };
        match name {
            Some(n) => {
                let ghost before = out@;
                out.push(n);
                assert(out@.map_values(|x: String| x@) =~= before.map_values(|x: String| x@).push(n@));
            },
            None => {},
        }
        i = i + 1;
    }
    assert(a@.take(a@.len() as int) =~= a@);
    out
}

impl Title {
    /// Reads a catalogue row; nothing without an id.
    pub fn from_value(r: &Json) -> (t: Option<Title>)
        ensures
            match from_value_spec(*r) {
                Some(v) => t matches Some(x) && x@ == v,
                None => t is None,
            },
    {
        let id = match as_u64(r.get("id")) {
            Some(i) => i,
            None => match as_u64(r.get("title_id")) {
                Some(i) => i,
                None => return None,
            },
        };
        let name = match as_string(r.get("name")) {
            Some(n) => n,
            None => String::new(),
        };
        let title_type = match as_string(r.get("title_type")) {
            Some(t) => if t.as_str().unicode_len() == 0 { None } else { Some(t) },
            None => None,
        };
        let genres = match r.get("genres") {
            Some(Json::Array(a)) => Some(genres_of(a)),
            _ => None,
        };
        let t = Title {
            id,
            name,
            year: as_i64(r.get("year")),
            title_type,
            poster: as_string(r.get("poster")),
            description: as_string(r.get("description")),
            season_count: as_i64(r.get("season_count")),
            genres,
            runtime: as_i64(r.get("runtime")),
            episode_count: as_i64(r.get("episode_count")),
            release_date: as_string(r.get("release_date")),
        };
        Some(t)
    }
}

/// A stored title of any age: an object read through the old field names
/// too (`title_id`, `title`, `type`, `image`, `poster_url`, `seasons`), a
/// bare number as the id, a bare string as the name; nothing otherwise.
pub open spec fn val_to_title_spec(v: Json) -> Option<TitleView> {
    match v {
        Json::Object(_) => Some(TitleView {
            id: match or_else(as_u64_spec(get_spec(v, "id"@)), as_u64_spec(get_spec(v, "title_id"@))) {
                Some(i) => i,
                None => 0,
            },
            name: text_or_empty(or_else(as_str_spec(get_spec(v, "name"@)), as_str_spec(get_spec(v, "title"@)))),
            year: as_i64_spec(get_spec(v, "year"@)),
            title_type: or_else(as_str_spec(get_spec(v, "title_type"@)), as_str_spec(get_spec(v, "type"@))),
            poster: or_else(
                as_str_spec(get_spec(v, "poster"@)),
                or_else(as_str_spec(get_spec(v, "image"@)), as_str_spec(get_spec(v, "poster_url"@))),
            ),
            description: as_str_spec(get_spec(v, "description"@)),
            season_count: or_else(as_i64_spec(get_spec(v, "season_count"@)), as_i64_spec(get_spec(v, "seasons"@))),
            genres: None,
            runtime: None,
            episode_count: None,
            release_date: None,
        }),
        Json::Number(u, _) => Some(bare_title(match u { Some(i) => i, None => 0 }, Seq::empty())),
        Json::Str(s) => Some(bare_title(0, s@)),
        _ => None,
    }
}

fn first_string(a: Option<String>, b: Option<String>) -> (r: Option<String>)
    ensures
        r == or_else(a, b),
{
    match a {
        Some(x) => Some(x),
        None => b,
    }
}

/// Reads a stored title, old field names included.
pub fn val_to_title(v: &Json) -> (t: Option<Title>)
    ensures
        match val_to_title_spec(*v) {
            Some(x) => t matches Some(y) && y@ == x,
            None => t is None,
        },
{
    match v {
        Json::Object(_) => {
            let id = match as_u64(v.get("id")) {
                Some(i) => i,
                None => match as_u64(v.get("title_id")) {
                    Some(i) => i,
                    None => 0,
                },
            };
            let name = match first_string(as_string(v.get("name")), as_string(v.get("title"))) {
                Some(n) => n,
                None => String::new(),
            };
            let title_type = first_string(as_string(v.get("title_type")), as_string(v.get("type")));
            let poster = first_string(
                as_string(v.get("poster")),
                first_string(as_string(v.get("image")), as_string(v.get("poster_url"))),
            );
            let season_count = match as_i64(v.get("season_count")) {
                Some(n) => Some(n),
                None => as_i64(v.get("seasons")),
            };
            Some(Title {
                id,
                name,
                year: as_i64(v.get("year")),
                title_type,
                poster,
                description: as_string(v.get("description")),
                season_count,
                genres: None,
                runtime: None,
                episode_count: None,
                release_date: None,
            })
        },
        Json::Number(u, _) => {
            let mut t = Title::default();
            t.id = match u { Some(i) => *i, None => 0 };
            Some(t)
        },
        Json::Str(s) => {
            let mut t = Title::default();
            t.name = s.clone();
            Some(t)
        },
        _ => None,
    }
}


// ---------------------------------------------------------------------------
// A title in the cached home lists
// ---------------------------------------------------------------------------

/// Whether row `it` has id `id` (`id`, else `title_id`).
pub open spec fn row_has_id(it: Json, id: u64) -> bool {
    or_else(as_u64_spec(get_spec(it, "id"@)), as_u64_spec(get_spec(it, "title_id"@))) == Some(id)
}

/// The first row with id `id`.
pub open spec fn first_row(items: Seq<Json>, id: u64) -> Option<Json>
    decreases items.len(),
{
    if items.len() == 0 {
        None
    } else {
        match first_row(items.drop_last(), id) {
            Some(x) => Some(x),
            None => if row_has_id(items.last(), id) { Some(items.last()) } else { None },
        }
    }
}

/// The first row with id `id` over the lists, in order.
pub open spec fn first_in_lists(lists: Seq<Json>, id: u64) -> Option<Json>
    decreases lists.len(),
{
    if lists.len() == 0 {
        None
    } else {
        match first_in_lists(lists.drop_last(), id) {
            Some(x) => Some(x),
            None => match as_array_spec(get_spec(lists.last(), "items"@)) {
                Some(a) => first_row(a, id),
                None => None,
            },
        }
    }
}

/// The title a cached row gives.
pub open spec fn cached_row_title(it: Json, id: u64) -> TitleView {
    TitleView {
        id,
        name: text_or_empty(as_str_spec(get_spec(it, "name"@))),
        year: as_i64_spec(get_spec(it, "year"@)),
        title_type: as_str_spec(get_spec(it, "title_type"@)),
        poster: as_str_spec(get_spec(it, "poster"@)),
        description: as_str_spec(get_spec(it, "description"@)),
        season_count: as_i64_spec(get_spec(it, "season_count"@)),
        genres: None,
        runtime: None,
        episode_count: None,
        release_date: None,
    }
}

/// The title with id `id` in the cached home lists (`lists[].items[]`).
pub open spec fn title_in_lists_spec(value: Json, id: u64) -> Option<TitleView> {
    match as_array_spec(get_spec(value, "lists"@)) {
        Some(lists) => match first_in_lists(lists, id) {
            Some(it) => Some(cached_row_title(it, id)),
            None => None,
        },
        None => None,
    }
}

proof fn lemma_prefix_first_row(items: Seq<Json>, id: u64, n: int)
    requires
        0 <= n <= items.len(),
        first_row(items.take(n), id) is Some,
    ensures
        first_row(items, id) == first_row(items.take(n), id),
    decreases items.len() - n,
{
    if n < items.len() {
        assert(items.take(n + 1).drop_last() =~= items.take(n));
        lemma_prefix_first_row(items, id, n + 1);
    } else {
        assert(items.take(n) =~= items);
    }
}

proof fn lemma_prefix_first_in_lists(lists: Seq<Json>, id: u64, n: int)
    requires
        0 <= n <= lists.len(),
        first_in_lists(lists.take(n), id) is Some,
    ensures
        first_in_lists(lists, id) == first_in_lists(lists.take(n), id),
    decreases lists.len() - n,
{
    if n < lists.len() {
        assert(lists.take(n + 1).drop_last() =~= lists.take(n));
        lemma_prefix_first_in_lists(lists, id, n + 1);
    } else {
        assert(lists.take(n) =~= lists);
    }
}

fn find_row(items: &Vec<Json>, id: u64) -> (r: Option<&Json>)
    ensures
        match first_row(items@, id) {
            Some(x) => r matches Some(y) && *y == x,
            None => r is None,
        },
{
    let mut j: usize = 0;
    while j < items.len()
        invariant
            j <= items@.len(),
            first_row(items@.take(j as int), id) is None,
        decreases items@.len() - j,
    {
        assert(items@.take(j as int + 1).drop_last() =~= items@.take(j as int));
        let it = &items[j];
        let tid = match as_u64(it.get("id")) {
            Some(x) => Some(x),
            None => as_u64(it.get("title_id")),
        };
        if tid == Some(id) {
            proof { lemma_prefix_first_row(items@, id, j as int + 1); }
            return Some(it);
        }
        j = j + 1;
    }
    assert(items@.take(items@.len() as int) =~= items@);
    None
}

/// The title with id `id` in the cached home lists, read without the
/// network.
pub fn title_in_lists(value: &Json, id: u64) -> (t: Option<Title>)
    ensures
        match title_in_lists_spec(*value, id) {
            Some(x) => t matches Some(y) && y@ == x,
            None => t is None,
        },
{
    let lists = match value.get("lists") {
        Some(Json::Array(a)) => a,
        _ => return None,
    };
    assert(as_array_spec(get_spec(*value, "lists"@)) == Some(lists@));
    let mut k: usize = 0;
    while k < lists.len()
        invariant
            k <= lists@.len(),
            as_array_spec(get_spec(*value, "lists"@)) == Some(lists@),
            first_in_lists(lists@.take(k as int), id) is None,
        decreases lists@.len() - k,
    {
        assert(lists@.take(k as int + 1).drop_last() =~= lists@.take(k as int));
        match lists[k].get("items") {
            Some(Json::Array(items)) => {
                match find_row(items, id) {
                    Some(it) => {
                        proof {
                            assert(lists@.take(k as int + 1).last() == lists@[k as int]);
                            assert(first_in_lists(lists@.take(k as int + 1), id) == Some(*it));
                            lemma_prefix_first_in_lists(lists@, id, k as int + 1);
                        }
                        return Some(Title {
                            id,
                            name: match as_string(it.get("name")) {
                                Some(n) => n,
                                None => String::new(),
                            },
                            year: as_i64(it.get("year")),
                            title_type: as_string(it.get("title_type")),
                            poster: as_string(it.get("poster")),
                            description: as_string(it.get("description")),
                            season_count: as_i64(it.get("season_count")),
                            genres: None,
                            runtime: None,
                            episode_count: None,
                            release_date: None,
                        });
                    },
                    None => {},
                }
            },
            _ => {},
        }
        k = k + 1;
    }
    assert(lists@.take(lists@.len() as int) =~= lists@);
    None
}


// ---------------------------------------------------------------------------
// The saved state of older versions
// ---------------------------------------------------------------------------

/// A number, or 0.
pub open spec fn or_zero(o: Option<u64>) -> u64 {
    match o {
        Some(x) => x,
        None => 0,
    }
}

/// The title under key `title` of an entry.
pub open spec fn entry_title(it: Json) -> Option<TitleView> {
    match get_spec(it, "title"@) {
        Some(x) => val_to_title_spec(x),
        None => None,
    }
}

/// The favourites of a stored array: every entry that reads as a title.
pub open spec fn saved_from(a: Seq<Json>) -> Seq<TitleView>
    decreases a.len(),
{
    if a.len() == 0 {
        Seq::empty()
    } else {
        match val_to_title_spec(a.last()) {
            Some(t) => saved_from(a.drop_last()).push(t),
            None => saved_from(a.drop_last()),
        }
    }
}

/// The history of a stored array: every entry with a title and an episode
/// (`eps[i]` is what the episode of entry `i` read as); `ts` defaults to 0.
pub open spec fn history_from(a: Seq<Json>, eps: Seq<Option<Episode>>) -> Seq<HistoryView>
    decreases a.len(),
{
    if a.len() == 0 {
        Seq::empty()
    } else {
        let rest = history_from(a.drop_last(), eps);
        let i = a.len() - 1;
        let ep = if i < eps.len() { eps[i] } else { None };
        match (entry_title(a.last()), ep) {
            (Some(t), Some(e)) => rest.push(HistoryView { title: t, episode: e@, ts: or_zero(as_u64_spec(get_spec(a.last(), "ts"@))) }),
            _ => rest,
        }
    }
}

/// The marathon of a stored array: every entry with a title; `completed`
/// defaults to false and `added_at` to 0.
pub open spec fn marathon_from(a: Seq<Json>) -> Seq<MarathonView>
    decreases a.len(),
{
    if a.len() == 0 {
        Seq::empty()
    } else {
        let rest = marathon_from(a.drop_last());
        match entry_title(a.last()) {
            Some(t) => rest.push(MarathonView {
                title: t,
                completed: as_bool_spec(get_spec(a.last(), "completed"@)) == Some(true),
                added_at: or_zero(as_u64_spec(get_spec(a.last(), "added_at"@))),
            }),
            None => rest,
        }
    }
}

/// A flag of the stored state; false when missing.
pub open spec fn flag(v: Json, key: Seq<char>) -> bool {
    as_bool_spec(get_spec(v, key)) == Some(true)
}

/// The array under `key`, or none.
pub open spec fn array_or_empty(v: Json, key: Seq<char>) -> Seq<Json> {
    match as_array_spec(get_spec(v, key)) {
        Some(a) => a,
        None => Seq::empty(),
    }
}

pub(crate) fn array_of<'a>(v: &'a Json, key: &str) -> (r: Option<&'a Vec<Json>>)
    ensures
        match as_array_spec(get_spec(*v, key@)) {
            Some(a) => r matches Some(x) && x@ == a,
            None => r is None,
        },
{
    match v.get(key) {
        Some(Json::Array(a)) => Some(a),
        _ => None,
    }
}

fn saved_list(a: &Vec<Json>) -> (r: Vec<Title>)
    ensures
        r@.map_values(|t: Title| t@) == saved_from(a@),
{
    let mut out: Vec<Title> = Vec::new();
    let mut i: usize = 0;
    while i < a.len()
        invariant
            i <= a@.len(),
            out@.map_values(|t: Title| t@) == saved_from(a@.take(i as int)),
        decreases a@.len() - i,
    {
        assert(a@.take(i as int + 1).drop_last() =~= a@.take(i as int));
        match val_to_title(&a[i]) {
            Some(t) => {
                let ghost before = out@;
                out.push(t);
                assert(out@.map_values(|t: Title| t@) =~= before.map_values(|t: Title| t@).push(t@));
            },
            None => {},
        }
        i = i + 1;
    }
    assert(a@.take(a@.len() as int) =~= a@);
    out
}

fn history_list(a: &Vec<Json>, eps: &Vec<Option<Episode>>) -> (r: Vec<HistoryEntry>)
    ensures
        r@.map_values(|h: HistoryEntry| h@) == history_from(a@, eps@),
{
    let mut out: Vec<HistoryEntry> = Vec::new();
    let mut i: usize = 0;
    while i < a.len()
        invariant
            i <= a@.len(),
            out@.map_values(|h: HistoryEntry| h@) == history_from(a@.take(i as int), eps@),
        decreases a@.len() - i,
    {
        let ghost pre = a@.take(i as int + 1);
        assert(pre.drop_last() =~= a@.take(i as int));
        assert(pre.last() == a@[i as int]);
        let it = &a[i];
        let title = match it.get("title") {
            Some(x) => val_to_title(x),
            None => None,
        };
        let ep: Option<Episode> = if i < eps.len() {
            match &eps[i] {
                Some(e) => Some(e.copy()),
                None => None,
            }
        } else {
            None
        };
        let ts = match as_u64(it.get("ts")) {
            Some(x) => x,
            None => 0,
        };
        match (title, ep) {
            (Some(t), Some(e)) => {
                let ghost before = out@;
                let h = HistoryEntry { title: t, episode: e, ts };
                out.push(h);
                assert(out@.map_values(|h: HistoryEntry| h@) =~= before.map_values(|h: HistoryEntry| h@).push(h@));
            },
            _ => {},
        }
        i = i + 1;
    }
    assert(a@.take(a@.len() as int) =~= a@);
    out
}

fn marathon_list(a: &Vec<Json>) -> (r: Vec<MarathonItem>)
    ensures
        r@.map_values(|m: MarathonItem| m@) == marathon_from(a@),
{
    let mut out: Vec<MarathonItem> = Vec::new();
    let mut i: usize = 0;
    while i < a.len()
        invariant
            i <= a@.len(),
            out@.map_values(|m: MarathonItem| m@) == marathon_from(a@.take(i as int)),
        decreases a@.len() - i,
    {
        let ghost pre = a@.take(i as int + 1);
        assert(pre.drop_last() =~= a@.take(i as int));
        assert(pre.last() == a@[i as int]);
        let it = &a[i];
        let title = match it.get("title") {
            Some(x) => val_to_title(x),
            None => None,
        };
        match title {
            Some(t) => {
                let completed = match as_bool(it.get("completed")) {
                    Some(b) => b,
                    None => false,
                };
                let added_at = match as_u64(it.get("added_at")) {
                    Some(x) => x,
                    None => 0,
                };
                let ghost before = out@;
                let m = MarathonItem { title: t, completed, added_at };
                out.push(m);
                assert(out@.map_values(|m: MarathonItem| m@) =~= before.map_values(|m: MarathonItem| m@).push(m@));
            },
            None => {},
        }
        i = i + 1;
    }
    assert(a@.take(a@.len() as int) =~= a@);
    out
}

fn flag_of(v: &Json, key: &str) -> (r: bool)
    ensures
        r == flag(*v, key@),
{
    match as_bool(v.get(key)) {
        Some(b) => b,
        None => false,
    }
}

/// The records read from a stored state of any age. `current` and
/// `watched` are what the members `current` and `watched` read as (none and
/// empty where they did not), and `history_episodes[i]` what the episode of
/// history entry `i` read as. A document that is not an object gives no
/// records at all.
pub open spec fn migrate_spec(v: Json, current: Option<Watched>, watched: Map<u64, Seq<Watched>>, eps: Seq<Option<Episode>>) -> StateView {
    match v {
        Json::Object(_) => StateView {
            current,
            watched,
            saved: saved_from(array_or_empty(v, "saved"@)),
            history: history_from(array_or_empty(v, "history"@), eps),
            welcome_seen: flag(v, "welcome_seen"@),
            quick_search_tip_seen: flag(v, "quick_search_tip_seen"@),
            search_tip_seen: flag(v, "search_tip_seen"@),
            right_click_tip_seen: flag(v, "right_click_tip_seen"@),
            marathon: marathon_from(array_or_empty(v, "marathon"@)),
        },
        _ => StateView {
            current: None,
            watched: Map::empty(),
            saved: Seq::empty(),
            history: Seq::empty(),
            welcome_seen: false,
            quick_search_tip_seen: false,
            search_tip_seen: false,
            right_click_tip_seen: false,
            marathon: Seq::empty(),
        },
    }
}

/// Rebuilds the records from a stored state written by any version: old
/// field names are read, entries that cannot be read are dropped, and
/// nothing fails.
pub fn migrate_state(v: &Json, current: Option<Watched>, watched: HashMap<u64, Vec<Watched>>, history_episodes: Vec<Option<Episode>>) -> (r: State)
    ensures
        r@ == migrate_spec(*v, current, watched@.map_values(|l: Vec<Watched>| l@), history_episodes@),
{
    match v {
        Json::Object(_) => {
            let saved = match array_of(v, "saved") {
                Some(a) => saved_list(a),
                None => Vec::new(),
            };
            let history = match array_of(v, "history") {
                Some(a) => history_list(a, &history_episodes),
                None => Vec::new(),
            };
            let marathon = match array_of(v, "marathon") {
                Some(a) => marathon_list(a),
                None => Vec::new(),
            };
            let st = State {
                current,
                watched,
                saved,
                history,
                welcome_seen: flag_of(v, "welcome_seen"),
                quick_search_tip_seen: flag_of(v, "quick_search_tip_seen"),
                search_tip_seen: flag_of(v, "search_tip_seen"),
                right_click_tip_seen: flag_of(v, "right_click_tip_seen"),
                marathon,
            };
            proof {
                assert(st@.saved =~= saved_from(array_or_empty(*v, "saved"@)));
                assert(st@.history =~= history_from(array_or_empty(*v, "history"@), history_episodes@));
                assert(st@.marathon =~= marathon_from(array_or_empty(*v, "marathon"@)));
            }
            st
        },
        _ => {
            let st = State::new();
            assert(st@.saved =~= Seq::<TitleView>::empty());
            assert(st@.history =~= Seq::<HistoryView>::empty());
            assert(st@.marathon =~= Seq::<MarathonView>::empty());
            st
        },
    }
}


// ---------------------------------------------------------------------------
// Writing the records, so that they read back
// ---------------------------------------------------------------------------

proof fn lemma_key_at(entries: Seq<(String, Json)>, key: Seq<char>, i: int)
    requires
        0 <= i < entries.len(),
        entries[i].0@ == key,
        forall|j: int| 0 <= j < i ==> entries[j].0@ != key,
    ensures
        key_pos(entries, key) == Some(i),
    decreases entries.len(),
{
    if i < entries.len() - 1 {
        let d = entries.drop_last();
        assert forall|j: int| 0 <= j < i implies d[j].0@ != key by {
            assert(d[j] == entries[j]);
        }
        assert(d[i] == entries[i]);
        lemma_key_at(d, key, i);
    } else {
        lemma_key_absent(entries.drop_last(), key);
    }
}

proof fn lemma_key_absent(entries: Seq<(String, Json)>, key: Seq<char>)
    requires
        forall|j: int| 0 <= j < entries.len() ==> entries[j].0@ != key,
    ensures
        key_pos(entries, key) is None,
    decreases entries.len(),
{
    if entries.len() > 0 {
        let d = entries.drop_last();
        assert forall|j: int| 0 <= j < d.len() implies d[j].0@ != key by {
            assert(d[j] == entries[j]);
        }
        lemma_key_absent(d, key);
    }
}

fn entry(key: &str, v: Json) -> (r: (String, Json))
    ensures
        r.0@ == key@,
        r.1 == v,
{
    (owned(key), v)
}

fn u64_json(n: u64) -> (r: Json)
    ensures
        as_u64_spec(Some(r)) == Some(n),
{
    Json::Number(Some(n), if n <= 9223372036854775807u64 { Some(n as i64) } else { None })
}

fn opt_i64_json(n: Option<i64>) -> (r: Json)
    ensures
        as_i64_spec(Some(r)) == n,
{
    match n {
        Some(x) => Json::Number(if x >= 0 { Some(x as u64) } else { None }, Some(x)),
        None => Json::Null,
    }
}

fn opt_str_json(s: &Option<String>) -> (r: Json)
    ensures
        as_str_spec(Some(r)) == crate::catalog::opt_view(*s),
{
    match s {
        Some(x) => Json::Str(x.clone()),
        None => Json::Null,
    }
}

/// What a stored title reads back as: everything but the catalogue
/// details (genres, runtime, episode count, release date), which are read
/// again from the catalogue.
pub open spec fn stored_title(t: TitleView) -> TitleView {
    TitleView { genres: None, runtime: None, episode_count: None, release_date: None, ..t }
}

/// A title as stored: an object with all of its fields.
pub fn title_json(t: &Title) -> (r: Json)
    ensures
        val_to_title_spec(r) == Some(stored_title(t@)),
{
    let genres = match &t.genres {
        Some(g) => {
            let mut a: Vec<Json> = Vec::new();
            let mut i: usize = 0;
            while i < g.len()
                decreases g.len() - i,
            {
                a.push(Json::Str(g[i].clone()));
                i = i + 1;
            }
            Json::Array(a)
        },
        None => Json::Null,
    };
    let mut e: Vec<(String, Json)> = Vec::new();
    e.push(entry("id", u64_json(t.id)));
    e.push(entry("name", Json::Str(t.name.clone())));
    e.push(entry("year", opt_i64_json(t.year)));
    e.push(entry("title_type", opt_str_json(&t.title_type)));
    e.push(entry("poster", opt_str_json(&t.poster)));
    e.push(entry("description", opt_str_json(&t.description)));
    e.push(entry("season_count", opt_i64_json(t.season_count)));
    e.push(entry("genres", genres));
    e.push(entry("runtime", opt_i64_json(t.runtime)));
    e.push(entry("episode_count", opt_i64_json(t.episode_count)));
    e.push(entry("release_date", opt_str_json(&t.release_date)));
    proof {
        reveal_strlit("id");
        reveal_strlit("name");
        reveal_strlit("year");
        reveal_strlit("title_type");
        reveal_strlit("poster");
        reveal_strlit("description");
        reveal_strlit("season_count");
        reveal_strlit("genres");
        reveal_strlit("runtime");
        reveal_strlit("episode_count");
        reveal_strlit("release_date");
        reveal_strlit("title_id");
        reveal_strlit("title");
        reveal_strlit("type");
        reveal_strlit("image");
        reveal_strlit("poster_url");
        reveal_strlit("seasons");
        let es = e@;
        lemma_key_at(es, "id"@, 0);
        assert forall|j: int| 0 <= j < 1 implies (es[j].0@.len() != "name"@.len() || es[j].0@[0] != "name"@[0]) by {}
        lemma_key_at(es, "name"@, 1);
        assert forall|j: int| 0 <= j < 2 implies (es[j].0@.len() != "year"@.len() || es[j].0@[0] != "year"@[0]) by {}
        lemma_key_at(es, "year"@, 2);
        assert forall|j: int| 0 <= j < 3 implies (es[j].0@.len() != "title_type"@.len() || es[j].0@[0] != "title_type"@[0]) by {}
        lemma_key_at(es, "title_type"@, 3);
        assert forall|j: int| 0 <= j < 4 implies (es[j].0@.len() != "poster"@.len() || es[j].0@[0] != "poster"@[0]) by {}
        lemma_key_at(es, "poster"@, 4);
        assert forall|j: int| 0 <= j < 5 implies (es[j].0@.len() != "description"@.len() || es[j].0@[0] != "description"@[0]) by {}
        lemma_key_at(es, "description"@, 5);
        assert forall|j: int| 0 <= j < 6 implies (es[j].0@.len() != "season_count"@.len() || es[j].0@[0] != "season_count"@[0]) by {}
        lemma_key_at(es, "season_count"@, 6);
        assert forall|j: int| 0 <= j < es.len() implies (es[j].0@.len() != "title_id"@.len() || es[j].0@[0] != "title_id"@[0]) by {}
        lemma_key_absent(es, "title_id"@);
        assert forall|j: int| 0 <= j < es.len() implies (es[j].0@.len() != "title"@.len() || es[j].0@[0] != "title"@[0]) by {}
        lemma_key_absent(es, "title"@);
        assert forall|j: int| 0 <= j < es.len() implies (es[j].0@.len() != "type"@.len() || es[j].0@[0] != "type"@[0]) by {}
        lemma_key_absent(es, "type"@);
        assert forall|j: int| 0 <= j < es.len() implies (es[j].0@.len() != "image"@.len() || es[j].0@[0] != "image"@[0]) by {}
        lemma_key_absent(es, "image"@);
        assert forall|j: int| 0 <= j < es.len() implies (es[j].0@.len() != "poster_url"@.len() || es[j].0@[0] != "poster_url"@[0]) by {}
        lemma_key_absent(es, "poster_url"@);
        assert forall|j: int| 0 <= j < es.len() implies (es[j].0@.len() != "seasons"@.len() || es[j].0@[0] != "seasons"@[0]) by {}
        lemma_key_absent(es, "seasons"@);
    }
    let r = Json::Object(e);
    r
}


pub open spec fn stored_titles(s: Seq<TitleView>) -> Seq<TitleView> {
    s.map_values(|t: TitleView| stored_title(t))
}

pub open spec fn stored_history(s: Seq<HistoryView>) -> Seq<HistoryView> {
    s.map_values(|h: HistoryView| HistoryView { title: stored_title(h.title), ..h })
}

pub open spec fn stored_marathon(s: Seq<MarathonView>) -> Seq<MarathonView> {
    s.map_values(|m: MarathonView| MarathonView { title: stored_title(m.title), ..m })
}

/// The favourites as stored.
pub fn saved_json(v: &Vec<Title>) -> (r: Vec<Json>)
    ensures
        saved_from(r@) == stored_titles(v@.map_values(|t: Title| t@)),
{
    let ghost tv = v@.map_values(|t: Title| t@);
    let mut out: Vec<Json> = Vec::new();
    let mut i: usize = 0;
    while i < v.len()
        invariant
            i <= v@.len(),
            tv == v@.map_values(|t: Title| t@),
            saved_from(out@) == stored_titles(tv.take(i as int)),
        decreases v@.len() - i,
    {
        let j = title_json(&v[i]);
        let ghost before = out@;
        out.push(j);
        assert(out@.drop_last() =~= before);
        assert(stored_titles(tv.take(i as int + 1)) =~= stored_titles(tv.take(i as int)).push(stored_title(v@[i as int]@)));
        i = i + 1;
    }
    assert(tv.take(v@.len() as int) =~= tv);
    out
}

fn entry_json(e: Vec<(String, Json)>) -> (r: Json)
    ensures
        r == Json::Object(e),
{
    Json::Object(e)
}

/// The history as stored: each entry's title, episode and time.
pub fn history_json(v: &Vec<HistoryEntry>) -> (r: Vec<Json>)
    ensures
        history_from(r@, v@.map_values(|h: HistoryEntry| Some(h.episode))) == stored_history(v@.map_values(|h: HistoryEntry| h@)),
{
    let ghost hv = v@.map_values(|h: HistoryEntry| h@);
    let ghost eps = v@.map_values(|h: HistoryEntry| Some(h.episode));
    let mut out: Vec<Json> = Vec::new();
    let mut i: usize = 0;
    while i < v.len()
        invariant
            i <= v@.len(),
            hv == v@.map_values(|h: HistoryEntry| h@),
            eps == v@.map_values(|h: HistoryEntry| Some(h.episode)),
            out@.len() == i,
            history_from(out@, eps) == stored_history(hv.take(i as int)),
        decreases v@.len() - i,
    {
        let h = &v[i];
        let mut ep: Vec<(String, Json)> = Vec::new();
        ep.push(entry("episode", u64_json(h.episode.episode)));
        ep.push(entry("season", u64_json(h.episode.season)));
        ep.push(entry("name", Json::Str(h.episode.name.clone())));
        let mut e: Vec<(String, Json)> = Vec::new();
        e.push(entry("title", title_json(&h.title)));
        e.push(entry("episode", entry_json(ep)));
        e.push(entry("ts", u64_json(h.ts)));
        proof {
            reveal_strlit("title");
            reveal_strlit("episode");
            reveal_strlit("ts");
            let es = e@;
            lemma_key_at(es, "title"@, 0);
            assert forall|j: int| 0 <= j < 2 implies (es[j].0@.len() != "ts"@.len() || es[j].0@[0] != "ts"@[0]) by {}
            lemma_key_at(es, "ts"@, 2);
        }
        let j = entry_json(e);
        let ghost before = out@;
        out.push(j);
        proof {
            assert(out@.drop_last() =~= before);
            assert(entry_title(j) == Some(stored_title(h.title@)));
            assert(stored_history(hv.take(i as int + 1)) =~= stored_history(hv.take(i as int)).push(
                HistoryView { title: stored_title(h.title@), ..h@ },
            ));
        }
        i = i + 1;
    }
    assert(hv.take(v@.len() as int) =~= hv);
    out
}

/// The marathon as stored: each entry's title, state and time added.
pub fn marathon_json(v: &Vec<MarathonItem>) -> (r: Vec<Json>)
    ensures
        marathon_from(r@) == stored_marathon(v@.map_values(|m: MarathonItem| m@)),
{
    let ghost mv = v@.map_values(|m: MarathonItem| m@);
    let mut out: Vec<Json> = Vec::new();
    let mut i: usize = 0;
    while i < v.len()
        invariant
            i <= v@.len(),
            mv == v@.map_values(|m: MarathonItem| m@),
            marathon_from(out@) == stored_marathon(mv.take(i as int)),
        decreases v@.len() - i,
    {
        let m = &v[i];
        let mut e: Vec<(String, Json)> = Vec::new();
        e.push(entry("title", title_json(&m.title)));
        e.push(entry("completed", Json::Bool(m.completed)));
        e.push(entry("added_at", u64_json(m.added_at)));
        proof {
            reveal_strlit("title");
            reveal_strlit("completed");
            reveal_strlit("added_at");
            let es = e@;
            lemma_key_at(es, "title"@, 0);
            assert forall|j: int| 0 <= j < 1 implies (es[j].0@.len() != "completed"@.len() || es[j].0@[0] != "completed"@[0]) by {}
            lemma_key_at(es, "completed"@, 1);
            assert forall|j: int| 0 <= j < 2 implies (es[j].0@.len() != "added_at"@.len() || es[j].0@[0] != "added_at"@[0]) by {}
            lemma_key_at(es, "added_at"@, 2);
        }
        let j = entry_json(e);
        let ghost before = out@;
        out.push(j);
        proof {
            assert(out@.drop_last() =~= before);
            assert(stored_marathon(mv.take(i as int + 1)) =~= stored_marathon(mv.take(i as int)).push(
                MarathonView { title: stored_title(m.title@), ..m@ },
            ));
        }
        i = i + 1;
    }
    assert(mv.take(v@.len() as int) =~= mv);
    out
}

/// The records as stored: favourites, history, marathon and the shown
/// tips (the watched lists, the current episode and the playback positions
/// are stored beside them). Read back, they give the same records, each
/// title without its catalogue details.
pub fn state_json(st: &State) -> (r: Json)
    ensures
        r is Object,
        migrate_spec(r, st.current, st@.watched, st.history@.map_values(|h: HistoryEntry| Some(h.episode)))
            == (StateView {
                saved: stored_titles(st@.saved),
                history: stored_history(st@.history),
                marathon: stored_marathon(st@.marathon),
                ..st@
            }),
{
    let mut e: Vec<(String, Json)> = Vec::new();
    e.push(entry("saved", Json::Array(saved_json(&st.saved))));
    e.push(entry("history", Json::Array(history_json(&st.history))));
    e.push(entry("welcome_seen", Json::Bool(st.welcome_seen)));
    e.push(entry("quick_search_tip_seen", Json::Bool(st.quick_search_tip_seen)));
    e.push(entry("search_tip_seen", Json::Bool(st.search_tip_seen)));
    e.push(entry("right_click_tip_seen", Json::Bool(st.right_click_tip_seen)));
    e.push(entry("marathon", Json::Array(marathon_json(&st.marathon))));
    proof {
        reveal_strlit("saved");
        reveal_strlit("history");
        reveal_strlit("welcome_seen");
        reveal_strlit("quick_search_tip_seen");
        reveal_strlit("search_tip_seen");
        reveal_strlit("right_click_tip_seen");
        reveal_strlit("marathon");
        let es = e@;
        lemma_key_at(es, "saved"@, 0);
        assert forall|j: int| 0 <= j < 1 implies (es[j].0@.len() != "history"@.len() || es[j].0@[0] != "history"@[0]) by {}
        lemma_key_at(es, "history"@, 1);
        assert forall|j: int| 0 <= j < 2 implies (es[j].0@.len() != "welcome_seen"@.len() || es[j].0@[0] != "welcome_seen"@[0]) by {}
        lemma_key_at(es, "welcome_seen"@, 2);
        assert forall|j: int| 0 <= j < 3 implies (es[j].0@.len() != "quick_search_tip_seen"@.len() || es[j].0@[0] != "quick_search_tip_seen"@[0]) by {}
        lemma_key_at(es, "quick_search_tip_seen"@, 3);
        assert forall|j: int| 0 <= j < 4 implies (es[j].0@.len() != "search_tip_seen"@.len() || es[j].0@[0] != "search_tip_seen"@[0]) by {}
        lemma_key_at(es, "search_tip_seen"@, 4);
        assert forall|j: int| 0 <= j < 5 implies (es[j].0@.len() != "right_click_tip_seen"@.len() || es[j].0@[0] != "right_click_tip_seen"@[0]) by {}
        lemma_key_at(es, "right_click_tip_seen"@, 5);
        assert forall|j: int| 0 <= j < 6 implies (es[j].0@.len() != "marathon"@.len() || es[j].0@[0] != "marathon"@[0]) by {}
        lemma_key_at(es, "marathon"@, 6);
    }
    let r = Json::Object(e);
    proof {
        assert(st.history@.map_values(|h: HistoryEntry| h@) == st@.history);
        assert(st.saved@.map_values(|t: Title| t@) == st@.saved);
        assert(st.marathon@.map_values(|m: MarathonItem| m@) == st@.marathon);
    }
    r
}

/// The records read from the text of a stored state: as `migrate_state`
/// reads the JSON value of the text; no records at all when the text is
/// not JSON.
pub fn state_from_text(text: &str, current: Option<Watched>, watched: HashMap<u64, Vec<Watched>>, history_episodes: Vec<Option<Episode>>) -> (r: State)
    ensures
        match json_text(text@) {
            Some(v) => r@ == migrate_spec(v, current, watched@.map_values(|l: Vec<Watched>| l@), history_episodes@),
            None => r@ == migrate_spec(Json::Null, None, Map::empty(), Seq::empty()),
        },
{
    match parse_json_text(text) {
        Ok(v) => migrate_state(&v, current, watched, history_episodes),
        Err(_) => {
            let st = State::new();
            assert(st@.saved =~= Seq::<TitleView>::empty());
            assert(st@.history =~= Seq::<HistoryView>::empty());
            assert(st@.marathon =~= Seq::<MarathonView>::empty());
            assert(st@.watched =~= Map::<u64, Seq<Watched>>::empty());
            st
        },
    }
}

/// The JSON value of a cached answer's text, or the parser's message.
pub fn answer_json(body: &str) -> (r: Result<Json, String>)
    ensures
        match r {
            Ok(v) => json_text(body@) == Some(v),
            Err(e) => json_text(body@) is None && e@ == json_error(body@),
        },
{
    parse_json_text(body)
}

proof fn lemma_saved_skips(a: Seq<Json>, k: int)
    requires
        0 <= k < a.len(),
        val_to_title_spec(a[k]) is None,
    ensures
        saved_from(a.remove(k)) == saved_from(a),
    decreases a.len(),
{
    if k == a.len() - 1 {
        assert(a.remove(k) =~= a.drop_last());
    } else {
        assert(a.remove(k).drop_last() =~= a.drop_last().remove(k));
        assert(a.remove(k).last() == a.last());
        lemma_saved_skips(a.drop_last(), k);
    }
}

proof fn lemma_marathon_skips(a: Seq<Json>, k: int)
    requires
        0 <= k < a.len(),
        entry_title(a[k]) is None,
    ensures
        marathon_from(a.remove(k)) == marathon_from(a),
    decreases a.len(),
{
    if k == a.len() - 1 {
        assert(a.remove(k) =~= a.drop_last());
    } else {
        assert(a.remove(k).drop_last() =~= a.drop_last().remove(k));
        assert(a.remove(k).last() == a.last());
        lemma_marathon_skips(a.drop_last(), k);
    }
}

proof fn lemma_history_eps_prefix(a: Seq<Json>, e1: Seq<Option<Episode>>, e2: Seq<Option<Episode>>)
    requires
        a.len() <= e1.len(),
        a.len() <= e2.len(),
        forall|i: int| 0 <= i < a.len() ==> e1[i] == e2[i],
    ensures
        history_from(a, e1) == history_from(a, e2),
    decreases a.len(),
{
    if a.len() > 0 {
        lemma_history_eps_prefix(a.drop_last(), e1, e2);
    }
}

proof fn lemma_history_skips(a: Seq<Json>, eps: Seq<Option<Episode>>, k: int)
    requires
        0 <= k < a.len(),
        k < eps.len(),
        entry_title(a[k]) is None || eps[k] is None,
    ensures
        history_from(a.remove(k), eps.remove(k)) == history_from(a, eps),
    decreases a.len(),
{
    if k == a.len() - 1 {
        assert(a.remove(k) =~= a.drop_last());
        lemma_history_eps_prefix(a.drop_last(), eps.remove(k), eps);
    } else {
        assert(a.remove(k).drop_last() =~= a.drop_last().remove(k));
        assert(a.remove(k).last() == a.last());
        lemma_history_skips(a.drop_last(), eps, k);
    }
}

/// Two stored states that are both objects and hold the same flags.
pub open spec fn same_but_arrays(v: Json, w: Json) -> bool {
    &&& v is Object
    &&& w is Object
    &&& flag(w, "welcome_seen"@) == flag(v, "welcome_seen"@)
    &&& flag(w, "quick_search_tip_seen"@) == flag(v, "quick_search_tip_seen"@)
    &&& flag(w, "search_tip_seen"@) == flag(v, "search_tip_seen"@)
    &&& flag(w, "right_click_tip_seen"@) == flag(v, "right_click_tip_seen"@)
}

/// Dropping a favourite that does not read as a title from the stored state
/// changes nothing that `migrate_state` rebuilds.
pub proof fn lemma_migrate_skips_unreadable_saved(
    v: Json,
    w: Json,
    k: int,
    current: Option<Watched>,
    watched: Map<u64, Seq<Watched>>,
    eps: Seq<Option<Episode>>,
)
    requires
        same_but_arrays(v, w),
        0 <= k < array_or_empty(v, "saved"@).len(),
        val_to_title_spec(array_or_empty(v, "saved"@)[k]) is None,
        array_or_empty(w, "saved"@) == array_or_empty(v, "saved"@).remove(k),
        array_or_empty(w, "history"@) == array_or_empty(v, "history"@),
        array_or_empty(w, "marathon"@) == array_or_empty(v, "marathon"@),
    ensures
        migrate_spec(w, current, watched, eps) == migrate_spec(v, current, watched, eps),
{
    lemma_saved_skips(array_or_empty(v, "saved"@), k);
}

/// Dropping a history entry that has no readable title or episode (and its
/// episode reading with it) changes nothing that `migrate_state` rebuilds.
pub proof fn lemma_migrate_skips_unreadable_history(
    v: Json,
    w: Json,
    k: int,
    current: Option<Watched>,
    watched: Map<u64, Seq<Watched>>,
    eps: Seq<Option<Episode>>,
)
    requires
        same_but_arrays(v, w),
        0 <= k < array_or_empty(v, "history"@).len(),
        k < eps.len(),
        entry_title(array_or_empty(v, "history"@)[k]) is None || eps[k] is None,
        array_or_empty(w, "saved"@) == array_or_empty(v, "saved"@),
        array_or_empty(w, "history"@) == array_or_empty(v, "history"@).remove(k),
        array_or_empty(w, "marathon"@) == array_or_empty(v, "marathon"@),
    ensures
        migrate_spec(w, current, watched, eps.remove(k)) == migrate_spec(v, current, watched, eps),
{
    lemma_history_skips(array_or_empty(v, "history"@), eps, k);
}

/// Dropping a marathon entry without a readable title from the stored state
/// changes nothing that `migrate_state` rebuilds.
pub proof fn lemma_migrate_skips_unreadable_marathon(
    v: Json,
    w: Json,
    k: int,
    current: Option<Watched>,
    watched: Map<u64, Seq<Watched>>,
    eps: Seq<Option<Episode>>,
)
    requires
        same_but_arrays(v, w),
        0 <= k < array_or_empty(v, "marathon"@).len(),
        entry_title(array_or_empty(v, "marathon"@)[k]) is None,
        array_or_empty(w, "saved"@) == array_or_empty(v, "saved"@),
        array_or_empty(w, "history"@) == array_or_empty(v, "history"@),
        array_or_empty(w, "marathon"@) == array_or_empty(v, "marathon"@).remove(k),
    ensures
        migrate_spec(w, current, watched, eps) == migrate_spec(v, current, watched, eps),
{
    lemma_marathon_skips(array_or_empty(v, "marathon"@), k);
}

/// The integer a member holds, when it holds one that fits an `i64`.
pub open spec fn int_member(v: Json, key: Seq<char>) -> Option<i64> {
    match get_spec(v, key) {
        Some(Json::Number(_, Some(n))) => Some(n),
        _ => None,
    }
}

/// The unsigned integer a member holds, when it holds one that fits a `u64`.
pub open spec fn uint_member(v: Json, key: Seq<char>) -> Option<u64> {
    match get_spec(v, key) {
        Some(Json::Number(Some(n), _)) => Some(n),
        _ => None,
    }
}

/// The text a member holds, when it holds text.
pub open spec fn text_member(v: Json, key: Seq<char>) -> Option<Seq<char>> {
    match get_spec(v, key) {
        Some(Json::Str(s)) => Some(s@),
        _ => None,
    }
}

/// A catalogue row that carries a numeric `id` (or, without one, a numeric
/// `title_id`) reads as a title with that id, and a row with neither reads
/// as nothing. Each field of the title read is the row's member of that
/// name: the integers `year`, `season_count`, `runtime` and
/// `episode_count`, the texts `poster`, `description` and `release_date`,
/// the text `name` (empty when missing) and a non-empty `title_type`; a
/// member that is missing or of another kind gives nothing.
pub proof fn lemma_from_value_reads_members(r: Json)
    ensures
        match get_spec(r, "id"@) {
            Some(Json::Number(Some(id), _)) => from_value_spec(r) matches Some(t) && t.id == id,
            _ => match get_spec(r, "title_id"@) {
                Some(Json::Number(Some(id), _)) => from_value_spec(r) matches Some(t) && t.id == id,
                _ => from_value_spec(r) is None,
            },
        },
        from_value_spec(r) matches Some(t) ==> {
            &&& t.year == int_member(r, "year"@)
            &&& t.season_count == int_member(r, "season_count"@)
            &&& t.runtime == int_member(r, "runtime"@)
            &&& t.episode_count == int_member(r, "episode_count"@)
            &&& t.poster == text_member(r, "poster"@)
            &&& t.description == text_member(r, "description"@)
            &&& t.release_date == text_member(r, "release_date"@)
            &&& t.name == match text_member(r, "name"@) { Some(s) => s, None => Seq::empty() }
            &&& t.title_type == match text_member(r, "title_type"@) {
                Some(s) => if s.len() > 0 { Some(s) } else { None },
                None => None,
            }
        },
{
}

/// A stored title entry reads as follows: an object gives a title whose id
/// is its numeric `id` (else `title_id`, else 0), whose name is its text
/// `name` (else `title`, else empty), whose year and season count are its
/// integer `year` and `season_count` (else `seasons`), whose description is
/// its text `description` and whose poster is its text `poster` (else
/// `image`, else `poster_url`); a plain number is just an id and a plain
/// text just a name; anything else reads as nothing.
pub proof fn lemma_val_to_title_members(v: Json)
    ensures
        match v {
            Json::Object(_) => val_to_title_spec(v) matches Some(t) && {
                &&& t.id == match uint_member(v, "id"@) {
                    Some(i) => i,
                    None => match uint_member(v, "title_id"@) { Some(i) => i, None => 0 },
                }
                &&& t.name == match text_member(v, "name"@) {
                    Some(n) => n,
                    None => match text_member(v, "title"@) { Some(n) => n, None => Seq::empty() },
                }
                &&& t.year == int_member(v, "year"@)
                &&& t.season_count == match int_member(v, "season_count"@) {
                    Some(n) => Some(n),
                    None => int_member(v, "seasons"@),
                }
                &&& t.description == text_member(v, "description"@)
                &&& t.poster == match text_member(v, "poster"@) {
                    Some(p) => Some(p),
                    None => match text_member(v, "image"@) { Some(p) => Some(p), None => text_member(v, "poster_url"@) },
                }
            },
            Json::Number(u, _) => val_to_title_spec(v) matches Some(t) && t.id == (match u { Some(i) => i, None => 0 })
                && t.name.len() == 0,
            Json::Str(s) => val_to_title_spec(v) matches Some(t) && t.id == 0 && t.name == s@,
            _ => val_to_title_spec(v) is None,
        },
{
}

} // verus!
