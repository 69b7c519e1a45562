//! Running the assistant's tool calls: which tool a call names, the
//! defaults of their arguments, and the notes and messages they answer with.

use vstd::prelude::*;
use crate::aicix::{tool_names, OpenAIToolCall};
use crate::json::{json_error, json_text, parse_json_text, text_member, uint_member, as_i64, as_i64_spec, as_str_spec, as_string, as_u64, as_u64_spec, get_spec, or_zero, text_or_empty, Json};
use crate::text::{chars_of, decimal, decimal2, extend_chars, extend_str, owned, str_eq, string_from, u64_decimal, u64_decimal2};

verus! {

/// A tool the assistant may call.
#[derive(Clone, Copy, Debug, PartialEq, Eq, Structural)]
pub enum ToolKind {
    SearchAnime,
    GetTitleDetails,
    GetEpisodes,
    GetFansubs,
    OpenTitle,
}

/// The tool a call's name names, if any.
pub open spec fn tool_kind_spec(name: Seq<char>) -> Option<ToolKind> {
    if name == "search_anime"@ {
        Some(ToolKind::SearchAnime)
    } else if name == "get_title_details"@ {
        Some(ToolKind::GetTitleDetails)
    } else if name == "get_episodes"@ {
        Some(ToolKind::GetEpisodes)
    } else if name == "get_fansubs"@ {
        Some(ToolKind::GetFansubs)
    } else if name == "open_title"@ {
        Some(ToolKind::OpenTitle)
    } else {
        None
    }
}

/// Dispatches a tool call by name.
pub fn tool_kind(name: &str) -> (r: Option<ToolKind>)
    ensures
        r == tool_kind_spec(name@),
{
    if str_eq(name, "search_anime") {
        Some(ToolKind::SearchAnime)
    } else if str_eq(name, "get_title_details") {
        Some(ToolKind::GetTitleDetails)
    } else if str_eq(name, "get_episodes") {
        Some(ToolKind::GetEpisodes)
    } else if str_eq(name, "get_fansubs") {
        Some(ToolKind::GetFansubs)
    } else if str_eq(name, "open_title") {
        Some(ToolKind::OpenTitle)
    } else {
        None
    }
}

/// The answer to a call of a tool that does not exist.
pub fn unknown_tool(name: &str) -> (r: String)
    ensures
        r@ == "Bilinmeyen tool: "@ + name@,
{
    let mut v = chars_of("Bilinmeyen tool: ");
    extend_str(&mut v, name);
    string_from(&v)
}

/// The answer to arguments that are not JSON, with the parser's message.
pub fn bad_arguments(err: &str) -> (r: String)
    ensures
        r@ == "Tool argümanları ayrıştırılamadı: "@ + err@,
{
    let mut v = chars_of("Tool argümanları ayrıştırılamadı: ");
    extend_str(&mut v, err);
    string_from(&v)
}

/// The answer to a tool that failed: its message, `: ` and the error.
pub fn tool_failure(what: &str, err: &str) -> (r: String)
    ensures
        r@ == what@ + ": "@ + err@,
{
    let mut v = chars_of(what);
    extend_str(&mut v, ": ");
    extend_str(&mut v, err);
    string_from(&v)
}

/// How many search results are shown when the call does not say: 5.
pub const DEFAULT_SEARCH_LIMIT: u64 = 5;

/// Most episodes an episode card lists.
pub const EPISODE_CARD_LIMIT: usize = 50;

/// The number of results a search call asks for.
pub fn search_limit(limit: Option<u64>) -> (r: u64)
    ensures
        r == match limit { Some(n) => n, None => DEFAULT_SEARCH_LIMIT },
{
    match limit {
        Some(n) => n,
        None => DEFAULT_SEARCH_LIMIT,
    }
}

/// The season or episode a fansub call asks for (the first when unsaid).
pub fn first_if_unsaid(n: Option<u64>) -> (r: u64)
    ensures
        r == match n { Some(x) => x, None => 1 },
{
    match n {
        Some(x) => x,
        None => 1,
    }
}

/// The first `limit` items of a list of results.
pub fn capped<T>(items: Vec<T>, limit: u64) -> (r: Vec<T>)
    ensures
        r@ == if items@.len() <= limit { items@ } else { items@.take(limit as int) },
{
    let mut out: Vec<T> = Vec::new();
    let mut rest = items;
    let ghost all = rest@;
    let mut n: u64 = 0;
    while n < limit && rest.len() > 0
        invariant
            n <= limit,
            out@.len() == n,
            all == out@ + rest@,
        decreases rest.len(),
    {
        let x = rest.remove(0);
        out.push(x);
        assert(all =~= out@ + rest@);
        n = n + 1;
    }
    proof {
        if all.len() <= limit {
            assert(rest@.len() == 0);
            assert(out@ =~= all);
        } else {
            assert(n == limit);
            assert(all.take(limit as int) =~= out@);
        }
    }
    out
}

/// A bracketed count note of a card: `[{n}{what}]`.
pub open spec fn count_note_spec(n: nat, what: Seq<char>) -> Seq<char> {
    "["@ + decimal(n) + what + "]"@
}

/// The note of a search card: `[{n} sonuç bulundu]`.
pub fn results_note(n: u64) -> (r: String)
    ensures
        r@ == count_note_spec(n as nat, " sonuç bulundu"@),
{
    count_note(n, " sonuç bulundu")
}

/// The note of an episode card: `[{n} bölüm]`.
pub fn episodes_note(n: u64) -> (r: String)
    ensures
        r@ == count_note_spec(n as nat, " bölüm"@),
{
    count_note(n, " bölüm")
}

/// The note of a fansub card: `[{n} fansub]`.
pub fn fansubs_note(n: u64) -> (r: String)
    ensures
        r@ == count_note_spec(n as nat, " fansub"@),
{
    count_note(n, " fansub")
}

fn count_note(n: u64, what: &str) -> (r: String)
    ensures
        r@ == count_note_spec(n as nat, what@),
{
    let mut v = chars_of("[");
    let d = u64_decimal(n);
    extend_chars(&mut v, &d);
    extend_str(&mut v, what);
    extend_str(&mut v, "]");
    string_from(&v)
}

/// The note of a details card: `[{name} detayları]`.
pub fn details_note(name: &str) -> (r: String)
    ensures
        r@ == "["@ + name@ + " detayları]"@,
{
    let mut v = chars_of("[");
    extend_str(&mut v, name);
    extend_str(&mut v, " detayları]");
    string_from(&v)
}

/// The heading of a fansub card: `S{season:02}E{episode:02}`.
pub fn fansub_card_title(season: u64, episode: u64) -> (r: String)
    ensures
        r@ == "S"@ + decimal2(season as nat) + "E"@ + decimal2(episode as nat),
{
    let mut v = chars_of("S");
    let s = u64_decimal2(season);
    extend_chars(&mut v, &s);
    extend_str(&mut v, "E");
    let e = u64_decimal2(episode);
    extend_chars(&mut v, &e);
    string_from(&v)
}

/// The answer of `open_title`: `{name} açılıyor (id={id})`.
pub fn opening_message(name: &str, id: u64) -> (r: String)
    ensures
        r@ == name@ + " açılıyor (id="@ + decimal(id as nat) + ")"@,
{
    let mut v = chars_of(name);
    extend_str(&mut v, " açılıyor (id=");
    let d = u64_decimal(id);
    extend_chars(&mut v, &d);
    extend_str(&mut v, ")");
    string_from(&v)
}

/// The answer when a call lacks its `title_id`.
pub fn missing_title_id() -> (r: String)
    ensures
        r@ == "title_id gerekli"@,
{
    owned("title_id gerekli")
}

/// The answer when a search call lacks its query.
pub fn missing_query() -> (r: String)
    ensures
        r@ == "query parametresi gerekli"@,
{
    owned("query parametresi gerekli")
}


// ---------------------------------------------------------------------------
// Reading a call's arguments and the title service's answer
// ---------------------------------------------------------------------------

/// The arguments of a search call: its query (empty when missing) and how
/// many results it wants; refused without a query.
pub open spec fn search_arguments_spec(args: Json) -> Result<(Seq<char>, u64), Seq<char>> {
    let q = text_or_empty(as_str_spec(get_spec(args, "query"@)));
    if q.len() == 0 {
        Err("query parametresi gerekli"@)
    } else {
        Ok((q, match as_u64_spec(get_spec(args, "limit"@)) { Some(n) => n, None => DEFAULT_SEARCH_LIMIT }))
    }
}

/// Reads a search call's arguments.
pub fn search_arguments(args: &Json) -> (r: Result<(String, u64), String>)
    ensures
        match search_arguments_spec(*args) {
            Ok((q, n)) => r matches Ok(x) && x.0@ == q && x.1 == n,
            Err(e) => r matches Err(x) && x@ == e,
        },
{
    let query = match as_string(args.get("query")) {
        Some(q) => q,
        None => String::new(),
    };
    if query.as_str().unicode_len() == 0 {
        return Err(missing_query());
    }
    let limit = search_limit(as_u64(args.get("limit")));
    Ok((query, limit))
}

/// The `title_id` of a call; refused without one.
pub fn title_id_argument(args: &Json) -> (r: Result<u64, String>)
    ensures
        match as_u64_spec(get_spec(*args, "title_id"@)) {
            Some(id) => r == Ok::<u64, String>(id),
            None => r matches Err(e) && e@ == "title_id gerekli"@,
        },
{
    match as_u64(args.get("title_id")) {
        Some(id) => Ok(id),
        None => Err(missing_title_id()),
    }
}

/// The arguments of a fansub call: title, season and episode (the first
/// season and episode when unsaid); refused without a title.
pub fn fansub_arguments(args: &Json) -> (r: Result<(u64, u64, u64), String>)
    ensures
        match as_u64_spec(get_spec(*args, "title_id"@)) {
            Some(id) => r == Ok::<(u64, u64, u64), String>((
                id,
                match as_u64_spec(get_spec(*args, "season"@)) { Some(n) => n, None => 1 },
                match as_u64_spec(get_spec(*args, "episode"@)) { Some(n) => n, None => 1 },
            )),
            None => r matches Err(e) && e@ == "title_id gerekli"@,
        },
{
    let id = match title_id_argument(args) {
        Ok(id) => id,
        Err(e) => return Err(e),
    };
    let season = first_if_unsaid(as_u64(args.get("season")));
    let episode = first_if_unsaid(as_u64(args.get("episode")));
    Ok((id, season, episode))
}

/// A member of the answer's `title` object.
pub open spec fn title_member(raw: Json, key: Seq<char>) -> Option<Json> {
    match get_spec(raw, "title"@) {
        Some(t) => get_spec(t, key),
        None => None,
    }
}

/// What a details card shows of a title, read from the answer's `title`
/// object: name (empty when missing), year, episode count, description and
/// poster.
pub struct TitleFacts {
    pub name: String,
    pub year: Option<i64>,
    pub episode_count: Option<i64>,
    pub description: Option<String>,
    pub poster: Option<String>,
}

fn title_json(raw: &Json) -> (r: Option<&Json>)
    ensures
        match get_spec(*raw, "title"@) {
            Some(t) => r matches Some(x) && *x == t,
            None => r is None,
        },
{
    raw.get("title")
}

/// Reads a details card's facts out of the title service's answer.
pub fn title_facts(raw: &Json) -> (r: TitleFacts)
    ensures
        r.name@ == text_or_empty(as_str_spec(title_member(*raw, "name"@))),
        r.year == as_i64_spec(title_member(*raw, "year"@)),
        r.episode_count == as_i64_spec(title_member(*raw, "episode_count"@)),
        crate::catalog::opt_view(r.description) == as_str_spec(title_member(*raw, "description"@)),
        crate::catalog::opt_view(r.poster) == as_str_spec(title_member(*raw, "poster"@)),
{
    match title_json(raw) {
        Some(t) => {
            let name = match as_string(t.get("name")) {
                Some(n) => n,
                None => String::new(),
            };
            let description = as_string(t.get("description"));
            let poster = as_string(t.get("poster"));
            proof {
                assert(crate::catalog::opt_view(description) == as_str_spec(title_member(*raw, "description"@)));
                assert(crate::catalog::opt_view(poster) == as_str_spec(title_member(*raw, "poster"@)));
            }
            TitleFacts {
                name,
                year: as_i64(t.get("year")),
                episode_count: as_i64(t.get("episode_count")),
                description,
                poster,
            }
        },
        None => TitleFacts { name: String::new(), year: None, episode_count: None, description: None, poster: None },
    }
}

/// The episodes an episode card lists: the first `EPISODE_CARD_LIMIT` of
/// the answer's `episodes`, each with its number (0 when missing) and name
/// (empty when missing).
pub fn episode_card_items(raw: &Json) -> (r: Vec<(u64, String)>)
    ensures
        match crate::json::as_array_spec(get_spec(*raw, "episodes"@)) {
            Some(a) => {
                &&& r@.len() == if a.len() < EPISODE_CARD_LIMIT { a.len() } else { EPISODE_CARD_LIMIT as nat }
                &&& forall|i: int| 0 <= i < r@.len() ==> {
                    &&& (#[trigger] r@[i]).0 == or_zero(as_u64_spec(get_spec(a[i], "episode_number"@)))
                    &&& r@[i].1@ == text_or_empty(as_str_spec(get_spec(a[i], "name"@)))
                }
            },
            None => r@.len() == 0,
        },
{
    let mut out: Vec<(u64, String)> = Vec::new();
    match crate::json::array_of(raw, "episodes") {
        Some(a) => {
            let mut i: usize = 0;
            while i < a.len() && i < EPISODE_CARD_LIMIT
                invariant
                    i <= a@.len(),
                    i <= EPISODE_CARD_LIMIT,
                    out@.len() == i,
                    forall|k: int| 0 <= k < i ==> {
                        &&& (#[trigger] out@[k]).0 == or_zero(as_u64_spec(get_spec(a@[k], "episode_number"@)))
                        &&& out@[k].1@ == text_or_empty(as_str_spec(get_spec(a@[k], "name"@)))
                    },
                decreases a@.len() - i,
            {
                let e = &a[i];
                let number = match as_u64(e.get("episode_number")) {
                    Some(n) => n,
                    None => 0,
                };
                let name = match as_string(e.get("name")) {
                    Some(n) => n,
                    None => String::new(),
                };
                out.push((number, name));
                i = i + 1;
            }
        },
        None => {},
    }
    out
}

/// The arguments of a tool call, read from their JSON text; where the text
/// is not JSON, the answer that says so with the parser's message.
pub fn tool_arguments(call: &OpenAIToolCall) -> (r: Result<Json, String>)
    ensures
        match json_text(call.function.arguments@) {
            Some(v) => r == Ok::<Json, String>(v),
            None => r matches Err(e) && e@ == "Tool argümanları ayrıştırılamadı: "@ + json_error(call.function.arguments@),
        },
{
    match parse_json_text(call.function.arguments.as_str()) {
        Ok(v) => Ok(v),
        Err(e) => Err(bad_arguments(e.as_str())),
    }
}

/// The name a tool is offered to the model under.
pub open spec fn kind_name(k: ToolKind) -> Seq<char> {
    match k {
        ToolKind::SearchAnime => "search_anime"@,
        ToolKind::GetTitleDetails => "get_title_details"@,
        ToolKind::GetEpisodes => "get_episodes"@,
        ToolKind::GetFansubs => "get_fansubs"@,
        ToolKind::OpenTitle => "open_title"@,
    }
}

/// The tools in the order they are offered to the model.
pub open spec fn offered_kinds() -> Seq<ToolKind> {
    seq![ToolKind::SearchAnime, ToolKind::GetTitleDetails, ToolKind::GetEpisodes, ToolKind::GetFansubs, ToolKind::OpenTitle]
}

/// A call is dispatched to a tool exactly when it names that tool: each
/// tool's own name reaches it and no other name does (so no two names reach
/// the same tool, and every name that reaches a tool is one offered). The
/// tools offered to the model are offered under their own names, each once.
pub proof fn lemma_dispatch_by_name(name: Seq<char>, k: ToolKind)
    ensures
        tool_kind_spec(name) == Some(k) <==> name == kind_name(k),
        tool_names() == offered_kinds().map_values(|x: ToolKind| kind_name(x)),
        forall|i: int, j: int| 0 <= i < j < 5 ==> #[trigger] offered_kinds()[i] != #[trigger] offered_kinds()[j],
{
    reveal_strlit("search_anime");
    reveal_strlit("get_title_details");
    reveal_strlit("get_episodes");
    reveal_strlit("get_fansubs");
    reveal_strlit("open_title");
    assert("search_anime"@.len() == 12 && "search_anime"@[0] == 's');
    assert("get_title_details"@.len() == 17);
    assert("get_episodes"@.len() == 12 && "get_episodes"@[0] == 'g');
    assert("get_fansubs"@.len() == 11);
    assert("open_title"@.len() == 10);
    assert("search_anime"@ != "get_episodes"@);
    assert(tool_names() =~= offered_kinds().map_values(|x: ToolKind| kind_name(x)));
}

/// A search call with a non-empty text `query` asks for that query and for
/// its unsigned `limit` results (5 when unsaid); a call without such a
/// query is refused with "query parametresi gerekli".
pub proof fn lemma_search_arguments_members(args: Json)
    ensures
        match text_member(args, "query"@) {
            Some(q) => if q.len() > 0 {
                search_arguments_spec(args) == Ok::<(Seq<char>, u64), Seq<char>>((q, match uint_member(args, "limit"@) { Some(n) => n, None => 5 }))
            } else {
                search_arguments_spec(args) == Err::<(Seq<char>, u64), Seq<char>>("query parametresi gerekli"@)
            },
            None => search_arguments_spec(args) == Err::<(Seq<char>, u64), Seq<char>>("query parametresi gerekli"@),
        },
{
}

} // verus!
