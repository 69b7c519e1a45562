use animecix::tools::{EPISODE_CARD_LIMIT, ToolKind, bad_arguments, capped, details_note, episode_card_items, episodes_note, fansub_arguments, fansub_card_title, fansubs_note, first_if_unsaid, missing_query, missing_title_id, opening_message, results_note, search_arguments, search_limit, title_facts, title_id_argument, tool_arguments, tool_failure, tool_kind, unknown_tool};
use animecix::json::Json;
use animecix::aicix::{OpenAIFunctionCall, OpenAIToolCall};

#[test]
fn tool_dispatch() {
    assert_eq!(tool_kind("search_anime"), Some(ToolKind::SearchAnime));
    assert_eq!(tool_kind("open_title"), Some(ToolKind::OpenTitle));
    assert_eq!(tool_kind("get_fansubs"), Some(ToolKind::GetFansubs));
    assert_eq!(tool_kind("rm"), None);
    assert_eq!(unknown_tool("rm"), "Bilinmeyen tool: rm");
    assert_eq!(bad_arguments("EOF"), "Tool argümanları ayrıştırılamadı: EOF");
    assert_eq!(tool_failure("Arama hatası", "HTTP 500"), "Arama hatası: HTTP 500");
}

#[test]
fn tool_defaults_and_notes() {
    assert_eq!(search_limit(None), 5);
    assert_eq!(search_limit(Some(2)), 2);
    assert_eq!(first_if_unsaid(None), 1);
    assert_eq!(first_if_unsaid(Some(3)), 3);
    assert_eq!(capped(vec![1, 2, 3, 4], 2), vec![1, 2]);
    assert_eq!(capped(vec![1, 2], 5), vec![1, 2]);
    assert_eq!(capped(Vec::<u8>::new(), 0), Vec::<u8>::new());
    assert_eq!(EPISODE_CARD_LIMIT, 50);
    assert_eq!(results_note(3), "[3 sonuç bulundu]");
    assert_eq!(episodes_note(12), "[12 bölüm]");
    assert_eq!(fansubs_note(0), "[0 fansub]");
    assert_eq!(details_note("Frieren"), "[Frieren detayları]");
    assert_eq!(fansub_card_title(1, 5), "S01E05");
    assert_eq!(opening_message("Naruto", 42), "Naruto açılıyor (id=42)");
    assert_eq!(missing_title_id(), "title_id gerekli");
    assert_eq!(missing_query(), "query parametresi gerekli");
}

fn js(x: &str) -> Json {
    Json::Str(x.to_string())
}

fn jn(x: u64) -> Json {
    Json::Number(Some(x), Some(x as i64))
}

fn jo(e: Vec<(&str, Json)>) -> Json {
    Json::Object(e.into_iter().map(|(k, v)| (k.to_string(), v)).collect())
}

#[test]
fn tool_arguments_read_with_defaults() {
    assert_eq!(search_arguments(&jo(vec![("query", js("naruto"))])), Ok(("naruto".to_string(), 5)));
    assert_eq!(search_arguments(&jo(vec![("query", js("x")), ("limit", jn(2))])), Ok(("x".to_string(), 2)));
    assert_eq!(search_arguments(&jo(vec![("limit", jn(2))])), Err("query parametresi gerekli".to_string()));
    assert_eq!(title_id_argument(&jo(vec![("title_id", jn(9))])), Ok(9));
    assert_eq!(title_id_argument(&jo(vec![("title_id", js("9"))])), Err("title_id gerekli".to_string()));
    assert_eq!(fansub_arguments(&jo(vec![("title_id", jn(9)), ("episode", jn(4))])), Ok((9, 1, 4)));
    assert_eq!(fansub_arguments(&Json::Null), Err("title_id gerekli".to_string()));
}

#[test]
fn title_answer_facts_and_episodes() {
    let raw = jo(vec![
        (
            "title",
            jo(vec![("name", js("Frieren")), ("year", jn(2023)), ("episode_count", jn(28)), ("poster", js("p"))]),
        ),
        (
            "episodes",
            Json::Array((1..=60).map(|i| jo(vec![("episode_number", jn(i)), ("name", js("B"))])).collect()),
        ),
    ]);
    let f = title_facts(&raw);
    assert_eq!(f.name, "Frieren");
    assert_eq!((f.year, f.episode_count), (Some(2023), Some(28)));
    assert_eq!(f.poster.as_deref(), Some("p"));
    assert!(f.description.is_none());
    let eps = episode_card_items(&raw);
    assert_eq!(eps.len(), 50);
    assert_eq!(eps[49], (50, "B".to_string()));
    assert!(episode_card_items(&jo(vec![("episodes", Json::Array(vec![jo(vec![])]))])) == vec![(0, String::new())]);
    assert_eq!(title_facts(&Json::Null).name, "");
}

fn call_with(arguments: &str) -> OpenAIToolCall {
    OpenAIToolCall {
        id: "call_1".to_string(),
        kind: "function".to_string(),
        function: OpenAIFunctionCall { name: "search_anime".to_string(), arguments: arguments.to_string() },
    }
}

#[test]
fn tool_arguments_reads_json_text() {
    let args = tool_arguments(&call_with("{\"query\": \"naruto\", \"limit\": 3}")).expect("JSON");
    assert_eq!(search_arguments(&args), Ok(("naruto".to_string(), 3)));
    let args = tool_arguments(&call_with("{\"title_id\": 42}")).expect("JSON");
    assert_eq!(title_id_argument(&args), Ok(42));
}

#[test]
fn tool_arguments_reports_bad_json() {
    let e = match tool_arguments(&call_with("{\"query\": ")) {
        Err(e) => e,
        Ok(_) => panic!("not JSON"),
    };
    assert!(e.starts_with("Tool argümanları ayrıştırılamadı: "));
    assert!(e.len() > "Tool argümanları ayrıştırılamadı: ".len());
}
