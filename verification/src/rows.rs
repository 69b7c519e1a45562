//! The catalogue service's answers read into the rows the rest of the
//! library works on: home lists, search results, season and film video
//! lists, episode sources, tau-video addresses, and the anime database
//! lookup used for skip times.

use vstd::prelude::*;
use crate::catalog::{Category, Title, TitleView};
use crate::covers::{replace_all, replace_all_vec};
use crate::json::{key_pos, 
    array_of, as_array_spec, as_i64, as_i64_spec, as_str_spec, as_string, as_u64, as_u64_spec, from_value_spec, get_spec, or_else,
    or_zero, text_or_empty, int_member, text_member, uint_member, Json,
};
use crate::text::{chars_of, owned, string_from, sub_vec, trim, trim_bounds};
use crate::videos::{home_item_spec, home_item_wanted, EpisodeRow, SourceRow, VideoRow};

verus! {

/// The array under `key`, or none.
pub open spec fn items_of(v: Json, key: Seq<char>) -> Seq<Json> {
    match as_array_spec(get_spec(v, key)) {
        Some(a) => a,
        None => Seq::empty(),
    }
}

// ---------------------------------------------------------------------------
// Home lists and search
// ---------------------------------------------------------------------------

/// The titles shown of a home list: anime, films and title entries that
/// have an id.
pub open spec fn home_items(a: Seq<Json>) -> Seq<TitleView>
    decreases a.len(),
{
    if a.len() == 0 {
        Seq::empty()
    } else {
        let it = a.last();
        let wanted = home_item_spec(
            text_or_empty(as_str_spec(get_spec(it, "title_type"@))),
            text_or_empty(as_str_spec(get_spec(it, "model_type"@))),
        );
        match from_value_spec(it) {
            Some(t) => if wanted { home_items(a.drop_last()).push(t) } else { home_items(a.drop_last()) },
            None => home_items(a.drop_last()),
        }
    }
}

/// The home page's categories (name and titles), skipping lists with no
/// title shown.
pub open spec fn home_categories_spec(lists: Seq<Json>) -> Seq<(Seq<char>, Seq<TitleView>)>
    decreases lists.len(),
{
    if lists.len() == 0 {
        Seq::empty()
    } else {
        let l = lists.last();
        let items = home_items(items_of(l, "items"@));
        if items.len() > 0 {
            home_categories_spec(lists.drop_last()).push((text_or_empty(as_str_spec(get_spec(l, "name"@))), items))
        } else {
            home_categories_spec(lists.drop_last())
        }
    }
}

pub open spec fn category_views(c: Seq<Category>) -> Seq<(Seq<char>, Seq<TitleView>)> {
    c.map_values(|x: Category| (x.name@, x.items@.map_values(|t: Title| t@)))
}

fn home_list_items(a: &Vec<Json>) -> (r: Vec<Title>)
    ensures
        r@.map_values(|t: Title| t@) == home_items(a@),
{
    let mut out: Vec<Title> = Vec::new();
    let mut i: usize = 0;
    while i < a.len()
        invariant
            i <= a@.len(),
            out@.map_values(|t: Title| t@) == home_items(a@.take(i as int)),
        decreases a@.len() - i,
    {
        let ghost pre = a@.take(i as int + 1);
        assert(pre.drop_last() =~= a@.take(i as int));
        assert(pre.last() == a@[i as int]);
        let it = &a[i];
        let tt = match as_string(it.get("title_type")) {
            Some(s) => s,
            None => String::new(),
        };
        let mt = match as_string(it.get("model_type")) {
            Some(s) => s,
            None => String::new(),
        };
        if home_item_wanted(tt.as_str(), mt.as_str()) {
            match Title::from_value(it) {
                Some(t) => {
                    let ghost before = out@;
                    out.push(t);
                    assert(out@.map_values(|t: Title| t@) =~= before.map_values(|t: Title| t@).push(t@));
                },
                None => {},
            }
        }
        i = i + 1;
    }
    assert(a@.take(a@.len() as int) =~= a@);
    out
}

/// The home page's categories from the service's `lists` answer.
pub fn home_categories(d: &Json) -> (r: Vec<Category>)
    ensures
        category_views(r@) == home_categories_spec(items_of(*d, "lists"@)),
{
    match array_of(d, "lists") {
        Some(lists) => categories_in(lists),
        None => {
            let out: Vec<Category> = Vec::new();
            assert(category_views(out@) =~= Seq::<(Seq<char>, Seq<TitleView>)>::empty());
            out
        },
    }
}

fn categories_in(lists: &Vec<Json>) -> (r: Vec<Category>)
    ensures
        category_views(r@) == home_categories_spec(lists@),
{
    let mut out: Vec<Category> = Vec::new();
    let mut k: usize = 0;
    while k < lists.len()
        invariant
            k <= lists@.len(),
            category_views(out@) == home_categories_spec(lists@.take(k as int)),
        decreases lists@.len() - k,
    {
        let ghost pre = lists@.take(k as int + 1);
        assert(pre.drop_last() =~= lists@.take(k as int));
        assert(pre.last() == lists@[k as int]);
        let l = &lists[k];
        let items = match array_of(l, "items") {
            Some(a) => home_list_items(a),
            None => Vec::new(),
        };
        assert(items@.map_values(|t: Title| t@) == home_items(items_of(*l, "items"@)));
        if items.len() > 0 {
            let name = match as_string(l.get("name")) {
                Some(s) => s,
                None => String::new(),
            };
            let ghost before = out@;
            let c = Category { name, items };
            out.push(c);
            assert(category_views(out@) =~= category_views(before).push((c.name@, c.items@.map_values(|t: Title| t@))));
        }
        k = k + 1;
    }
    assert(lists@.take(lists@.len() as int) =~= lists@);
    out
}

/// The titles of a search answer's `results`, skipping rows without an id.
pub open spec fn search_spec(a: Seq<Json>) -> Seq<TitleView>
    decreases a.len(),
{
    if a.len() == 0 {
        Seq::empty()
    } else {
        match from_value_spec(a.last()) {
            Some(t) => search_spec(a.drop_last()).push(t),
            None => search_spec(a.drop_last()),
        }
    }
}

/// The titles found by a search.
pub fn search_results(d: &Json) -> (r: Vec<Title>)
    ensures
        r@.map_values(|t: Title| t@) == search_spec(items_of(*d, "results"@)),
{
    match array_of(d, "results") {
        Some(a) => search_in(a),
        None => {
            let out: Vec<Title> = Vec::new();
            assert(out@.map_values(|t: Title| t@) =~= Seq::<TitleView>::empty());
            out
        },
    }
}

fn search_in(a: &Vec<Json>) -> (r: Vec<Title>)
    ensures
        r@.map_values(|t: Title| t@) == search_spec(a@),
{
    let mut out: Vec<Title> = Vec::new();
    let mut i: usize = 0;
    while i < a.len()
        invariant
            i <= a@.len(),
            out@.map_values(|t: Title| t@) == search_spec(a@.take(i as int)),
        decreases a@.len() - i,
    {
        let ghost pre = a@.take(i as int + 1);
        assert(pre.drop_last() =~= a@.take(i as int));
        assert(pre.last() == a@[i as int]);
        match Title::from_value(&a[i]) {
            Some(t) => {
                let ghost before = out@;
                out.push(t);
                assert(out@.map_values(|t: Title| t@) =~= before.map_values(|t: Title| t@).push(t@));
            },
            None => {},
        }
        i = i + 1;
    }
    assert(a@.take(a@.len() as int) =~= a@);
    out
}

// ---------------------------------------------------------------------------
// Video lists
// ---------------------------------------------------------------------------

/// A season list's video as a row: missing numbers read as 0.
pub open spec fn episode_row_ok(v: Json, r: EpisodeRow) -> bool {
    &&& r.episode_num == or_zero(as_u64_spec(get_spec(v, "episode_num"@)))
    &&& r.season_num == or_zero(as_u64_spec(get_spec(v, "season_num"@)))
    &&& match r.name {
        Some(n) => as_str_spec(get_spec(v, "name"@)) == Some(n@),
        None => as_str_spec(get_spec(v, "name"@)) is None,
    }
}

/// The rows of a season's video list (`videos`).
pub fn episode_rows(d: &Json) -> (r: Vec<EpisodeRow>)
    ensures
        r@.len() == items_of(*d, "videos"@).len(),
        forall|i: int| 0 <= i < r@.len() ==> episode_row_ok(items_of(*d, "videos"@)[i], #[trigger] r@[i]),
{
    let empty: Vec<Json> = Vec::new();
    let a = match array_of(d, "videos") {
        Some(x) => x,
        None => &empty,
    };
    assert(a@ == items_of(*d, "videos"@));
    let mut out: Vec<EpisodeRow> = Vec::new();
    let mut i: usize = 0;
    while i < a.len()
        invariant
            i <= a@.len(),
            a@ == items_of(*d, "videos"@),
            out@.len() == i,
            forall|k: int| 0 <= k < i ==> episode_row_ok(a@[k], #[trigger] out@[k]),
        decreases a@.len() - i,
    {
        let v = &a[i];
        let row = EpisodeRow {
            episode_num: match as_u64(v.get("episode_num")) { Some(x) => x, None => 0 },
            season_num: match as_u64(v.get("season_num")) { Some(x) => x, None => 0 },
            name: as_string(v.get("name")),
        };
        out.push(row);
        i = i + 1;
    }
    out
}

/// A film video as a row: its category, address (empty when missing) and
/// positive votes (0 when missing).
pub open spec fn video_row_ok(v: Json, r: VideoRow) -> bool {
    &&& match r.category {
        Some(c) => as_str_spec(get_spec(v, "category"@)) == Some(c@),
        None => as_str_spec(get_spec(v, "category"@)) is None,
    }
    &&& r.url@ == text_or_empty(as_str_spec(get_spec(v, "url"@)))
    &&& r.votes == match as_i64_spec(get_spec(v, "positive_votes"@)) { Some(x) => x, None => 0 }
}

/// The rows of a film's video list (`data`).
pub fn video_rows(d: &Json) -> (r: Vec<VideoRow>)
    ensures
        r@.len() == items_of(*d, "data"@).len(),
        forall|i: int| 0 <= i < r@.len() ==> video_row_ok(items_of(*d, "data"@)[i], #[trigger] r@[i]),
{
    let empty: Vec<Json> = Vec::new();
    let a = match array_of(d, "data") {
        Some(x) => x,
        None => &empty,
    };
    assert(a@ == items_of(*d, "data"@));
    let mut out: Vec<VideoRow> = Vec::new();
    let mut i: usize = 0;
    while i < a.len()
        invariant
            i <= a@.len(),
            a@ == items_of(*d, "data"@),
            out@.len() == i,
            forall|k: int| 0 <= k < i ==> video_row_ok(a@[k], #[trigger] out@[k]),
        decreases a@.len() - i,
    {
        let v = &a[i];
        let row = VideoRow {
            category: as_string(v.get("category")),
            url: match as_string(v.get("url")) { Some(s) => s, None => String::new() },
            votes: match as_i64(v.get("positive_votes")) { Some(x) => x, None => 0 },
        };
        out.push(row);
        i = i + 1;
    }
    out
}

/// An episode's video as a source row: translator template, positive votes
/// (0 when missing) and address (empty when missing).
pub open spec fn source_row_ok(v: Json, r: SourceRow) -> bool {
    &&& r.template == match as_i64_spec(get_spec(v, "template"@)) { Some(x) => x, None => 0 }
    &&& r.votes == match as_i64_spec(get_spec(v, "positive_votes"@)) { Some(x) => x, None => 0 }
    &&& r.url@ == text_or_empty(as_str_spec(get_spec(v, "url"@)))
}

/// The source rows of an episode's answer (`videos`).
pub fn source_rows(d: &Json) -> (r: Vec<SourceRow>)
    ensures
        r@.len() == items_of(*d, "videos"@).len(),
        forall|i: int| 0 <= i < r@.len() ==> source_row_ok(items_of(*d, "videos"@)[i], #[trigger] r@[i]),
{
    let empty: Vec<Json> = Vec::new();
    let a = match array_of(d, "videos") {
        Some(x) => x,
        None => &empty,
    };
    assert(a@ == items_of(*d, "videos"@));
    let mut out: Vec<SourceRow> = Vec::new();
    let mut i: usize = 0;
    while i < a.len()
        invariant
            i <= a@.len(),
            a@ == items_of(*d, "videos"@),
            out@.len() == i,
            forall|k: int| 0 <= k < i ==> source_row_ok(a@[k], #[trigger] out@[k]),
        decreases a@.len() - i,
    {
        let v = &a[i];
        let row = SourceRow {
            template: match as_i64(v.get("template")) { Some(x) => x, None => 0 },
            votes: match as_i64(v.get("positive_votes")) { Some(x) => x, None => 0 },
            url: match as_string(v.get("url")) { Some(s) => s, None => String::new() },
        };
        out.push(row);
        i = i + 1;
    }
    out
}

/// The (label, address) entries of a tau-video answer (`urls`).
pub fn tau_entries(d: &Json) -> (r: Vec<(Option<String>, Option<String>)>)
    ensures
        r@.len() == items_of(*d, "urls"@).len(),
        forall|i: int| 0 <= i < r@.len() ==> {
            let u = items_of(*d, "urls"@)[i];
            &&& crate::stream::opt_view((#[trigger] r@[i]).0) == as_str_spec(get_spec(u, "label"@))
            &&& crate::stream::opt_view(r@[i].1) == as_str_spec(get_spec(u, "url"@))
        },
{
    let empty: Vec<Json> = Vec::new();
    let a = match array_of(d, "urls") {
        Some(x) => x,
        None => &empty,
    };
    assert(a@ == items_of(*d, "urls"@));
    let mut out: Vec<(Option<String>, Option<String>)> = Vec::new();
    let mut i: usize = 0;
    while i < a.len()
        invariant
            i <= a@.len(),
            a@ == items_of(*d, "urls"@),
            out@.len() == i,
            forall|k: int| 0 <= k < i ==> {
                let u = a@[k];
                &&& crate::stream::opt_view((#[trigger] out@[k]).0) == as_str_spec(get_spec(u, "label"@))
                &&& crate::stream::opt_view(out@[k].1) == as_str_spec(get_spec(u, "url"@))
            },
        decreases a@.len() - i,
    {
        let u = &a[i];
        let e = (as_string(u.get("label")), as_string(u.get("url")));
        out.push(e);
        i = i + 1;
    }
    out
}

/// Most videos gathered over a film's pages before paging stops.
pub const MOVIE_VIDEO_CAP: usize = 600;

/// The last page number of a paged answer (`pagination.last_page`); 1 when
/// missing.
pub open spec fn last_page_spec(r: Json) -> u64 {
    match get_spec(r, "pagination"@) {
        Some(p) => match as_u64_spec(get_spec(p, "last_page"@)) {
            Some(x) => x,
            None => 1,
        },
        None => 1,
    }
}

/// Reads the last page number of a paged answer.
pub fn last_page(r: &Json) -> (n: u64)
    ensures
        n == last_page_spec(*r),
{
    match r.get("pagination") {
        Some(p) => match as_u64(p.get("last_page")) {
            Some(x) => x,
            None => 1,
        },
        None => 1,
    }
}

/// The videos of one page of a film's video list (its `pagination.data`),
/// taken out of the page.
pub fn page_videos(r: Json) -> (v: Vec<Json>)
    ensures
        v@ == match get_spec(r, "pagination"@) {
            Some(p) => items_of(p, "data"@),
            None => Seq::empty(),
        },
{
    match r.take("pagination") {
        Some(p) => match p.take("data") {
            Some(Json::Array(a)) => a,
            _ => Vec::new(),
        },
        None => Vec::new(),
    }
}

/// A film's video list gathered from its pages: its `data` holds the
/// videos.
pub fn videos_doc(items: Vec<Json>) -> (d: Json)
    ensures
        items_of(d, "data"@) == items@,
{
    let key = owned("data");
    let entries = vec![(key, Json::Array(items))];
    proof {
        assert(entries@.drop_last() =~= Seq::<(String, Json)>::empty());
        assert(key_pos(entries@.drop_last(), "data"@) is None);
        assert(entries@.last().0@ == "data"@);
        assert(key_pos(entries@, "data"@) == Some(0int));
    }
    Json::Object(entries)
}

/// Whether another page of a film's videos is fetched after page `page`,
/// with `gathered` videos so far.
pub fn more_pages(page: u32, last: u64, gathered: usize) -> (r: bool)
    ensures
        r == !(page >= last || gathered > MOVIE_VIDEO_CAP),
{
    !((page as u64) >= last || gathered > MOVIE_VIDEO_CAP)
}

// ---------------------------------------------------------------------------
// Anime database lookup
// ---------------------------------------------------------------------------

/// The name looked up in the anime database: the title's name without
/// "(TV)", "Dublaj", "Altyazılı" and "Sezon", trimmed.
pub open spec fn mal_search_name_spec(name: Seq<char>) -> Seq<char> {
    trim(replace_all(
        replace_all(replace_all(replace_all(name, "(TV)"@, ""@), "Dublaj"@, ""@), "Altyazılı"@, ""@),
        "Sezon"@,
        ""@,
    ))
}

/// Cleans a title's name for the anime database lookup.
pub fn mal_search_name(name: &str) -> (r: String)
    ensures
        r@ == mal_search_name_spec(name@),
{
    proof {
        reveal_strlit("(TV)");
        reveal_strlit("Dublaj");
        reveal_strlit("Altyazılı");
        reveal_strlit("Sezon");
    }
    let v = chars_of(name);
    let a = replace_all_vec(&v, "(TV)", "");
    let b = replace_all_vec(&a, "Dublaj", "");
    let c = replace_all_vec(&b, "Altyazılı", "");
    let d = replace_all_vec(&c, "Sezon", "");
    let (lo, hi) = trim_bounds(&d, 0, d.len());
    assert(d@.subrange(0, d@.len() as int) =~= d@);
    let t = sub_vec(&d, lo, hi);
    string_from(&t)
}

/// The database id in a lookup answer (`data.Media.idMal`).
pub open spec fn mal_id_spec(d: Json) -> Option<u64> {
    match get_spec(d, "data"@) {
        Some(x) => match get_spec(x, "Media"@) {
            Some(m) => as_u64_spec(get_spec(m, "idMal"@)),
            None => None,
        },
        None => None,
    }
}

/// Reads the database id out of a lookup answer.
pub fn mal_id_of(d: &Json) -> (r: Option<u64>)
    ensures
        r == mal_id_spec(*d),
{
    match d.get("data") {
        Some(x) => match x.get("Media") {
            Some(m) => as_u64(m.get("idMal")),
            None => None,
        },
        None => None,
    }
}

/// A source row read from an episode's video holds the video's members:
/// the integer `template` and `positive_votes` (0 when missing or not an
/// integer) and the text `url` (empty when missing).
pub proof fn lemma_source_row_members(v: Json, r: SourceRow)
    requires
        source_row_ok(v, r),
    ensures
        r.votes == match int_member(v, "positive_votes"@) { Some(k) => k, None => 0 },
        r.template == match int_member(v, "template"@) { Some(k) => k, None => 0 },
        r.url@ == match text_member(v, "url"@) { Some(s) => s, None => Seq::empty() },
{
}

/// A row read from a season's video holds the video's members: the
/// unsigned `episode_num` and `season_num` (0 when missing or not such a
/// number) and the text `name`, when there is one.
pub proof fn lemma_episode_row_members(v: Json, r: EpisodeRow)
    requires
        episode_row_ok(v, r),
    ensures
        r.episode_num == match uint_member(v, "episode_num"@) { Some(k) => k, None => 0 },
        r.season_num == match uint_member(v, "season_num"@) { Some(k) => k, None => 0 },
        match r.name { Some(n) => Some(n@), None => None } == text_member(v, "name"@),
{
}

/// A row read from a film's video holds the video's members: the text
/// `category`, when there is one, the text `url` (empty when missing) and
/// the integer `positive_votes` (0 when missing or not an integer).
pub proof fn lemma_video_row_members(v: Json, r: VideoRow)
    requires
        video_row_ok(v, r),
    ensures
        match r.category { Some(c) => Some(c@), None => None } == text_member(v, "category"@),
        r.url@ == match text_member(v, "url"@) { Some(s) => s, None => Seq::empty() },
        r.votes == match int_member(v, "positive_votes"@) { Some(k) => k, None => 0 },
{
}

} // verus!
