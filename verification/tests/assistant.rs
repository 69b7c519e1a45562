use animecix::json::as_string;
use animecix::aicix::{all_definitions_json, find_tool, tool_definitions, GET_EPISODES_DEF, SEARCH_ANIME_DEF};
use animecix::settings::{default_loading, default_search_shortcut, default_shortcut, Settings};

#[test]
fn find_tool_by_name() {
    let t = find_tool("get_episodes").unwrap();
    assert_eq!(t.name, "get_episodes");
    assert_eq!(t.definition, GET_EPISODES_DEF);
    assert!(find_tool("delete_everything").is_none());
    assert!(find_tool("").is_none());
}

#[test]
fn tool_definitions_in_offer_order() {
    let names: Vec<&str> = tool_definitions().iter().map(|t| t.name).collect();
    assert_eq!(names, vec!["search_anime", "get_title_details", "get_episodes", "get_fansubs", "open_title"]);
    assert_eq!(tool_definitions()[0].definition, SEARCH_ANIME_DEF);
}

#[test]
fn all_definitions_parse_as_json() {
    let v = all_definitions_json();
    assert_eq!(v.len(), 5);
    let name = |j: &animecix::json::Json| as_string(j.get("function").and_then(|f| f.get("name")));
    assert_eq!(name(&v[0]).as_deref(), Some("search_anime"));
    assert_eq!(name(&v[1]).as_deref(), Some("get_title_details"));
    assert_eq!(name(&v[4]).as_deref(), Some("open_title"));
}

#[test]
fn settings_defaults() {
    let s = Settings::default();
    assert_eq!(s.loading_style, "overlay");
    assert!(s.quick_search_enabled);
    assert_eq!(s.quick_search_shortcut, "/");
    assert_eq!(s.search_shortcut, "Ctrl+S");
    assert!(s.auto_fullscreen && s.aniskip_enabled && s.auto_update && s.notify_uptodate);
    assert_eq!(default_loading(), "overlay");
    assert_eq!(default_shortcut(), "/");
    assert_eq!(default_search_shortcut(), "Ctrl+S");
}
