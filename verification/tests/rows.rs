use animecix::json::Json;
use animecix::rows::{
    episode_rows, home_categories, last_page, mal_id_of, mal_search_name, more_pages, search_results, source_rows,
    tau_entries, video_rows, page_videos, videos_doc,
};

fn s(x: &str) -> Json {
    Json::Str(x.to_string())
}

fn n(x: u64) -> Json {
    Json::Number(Some(x), Some(x as i64))
}

fn obj(e: Vec<(&str, Json)>) -> Json {
    Json::Object(e.into_iter().map(|(k, v)| (k.to_string(), v)).collect())
}

#[test]
fn home_categories_keep_wanted_titles_and_drop_empty_lists() {
    let d = obj(vec![(
        "lists",
        Json::Array(vec![
            obj(vec![
                ("name", s("Popüler")),
                (
                    "items",
                    Json::Array(vec![
                        obj(vec![("id", n(1)), ("name", s("A")), ("title_type", s("anime"))]),
                        obj(vec![("id", n(2)), ("name", s("Haber")), ("title_type", s("news"))]),
                        obj(vec![("title_id", n(3)), ("name", s("C")), ("model_type", s("title"))]),
                        obj(vec![("name", s("Kimliksiz")), ("title_type", s("movie"))]),
                    ]),
                ),
            ]),
            obj(vec![("name", s("Boş")), ("items", Json::Array(vec![obj(vec![("id", n(9)), ("title_type", s("x"))])]))]),
        ]),
    )]);
    let cats = home_categories(&d);
    assert_eq!(cats.len(), 1);
    assert_eq!(cats[0].name, "Popüler");
    let ids: Vec<u64> = cats[0].items.iter().map(|t| t.id).collect();
    assert_eq!(ids, vec![1, 3]);
    assert!(home_categories(&Json::Null).is_empty());
}

#[test]
fn search_results_skip_rows_without_id() {
    let d = obj(vec![(
        "results",
        Json::Array(vec![obj(vec![("id", n(7)), ("name", s("Yedi"))]), obj(vec![("name", s("yok"))])]),
    )]);
    let r = search_results(&d);
    assert_eq!(r.len(), 1);
    assert_eq!(r[0].name, "Yedi");
}

#[test]
fn video_lists_read_defaults() {
    let d = obj(vec![(
        "videos",
        Json::Array(vec![
            obj(vec![("episode_num", n(2)), ("season_num", n(1)), ("name", s("İki"))]),
            obj(vec![("template", Json::Number(None, Some(-3))), ("url", s("https://x/e"))]),
        ]),
    )]);
    let e = episode_rows(&d);
    assert_eq!((e[0].episode_num, e[0].season_num, e[0].name.as_deref()), (2, 1, Some("İki")));
    assert_eq!((e[1].episode_num, e[1].season_num, e[1].name.as_deref()), (0, 0, None));
    let sr = source_rows(&d);
    assert_eq!((sr[0].template, sr[0].votes, sr[0].url.as_str()), (0, 0, ""));
    assert_eq!((sr[1].template, sr[1].url.as_str()), (-3, "https://x/e"));
    let f = obj(vec![(
        "data",
        Json::Array(vec![obj(vec![("category", s("full")), ("url", s("u")), ("positive_votes", n(4))])]),
    )]);
    let v = video_rows(&f);
    assert_eq!((v[0].category.as_deref(), v[0].url.as_str(), v[0].votes), (Some("full"), "u", 4));
    assert!(video_rows(&Json::Null).is_empty());
}

#[test]
fn tau_entries_and_paging() {
    let d = obj(vec![(
        "urls",
        Json::Array(vec![obj(vec![("label", s("720p")), ("url", s("a"))]), obj(vec![("url", s("b"))])]),
    )]);
    let t = tau_entries(&d);
    assert_eq!(t, vec![(Some("720p".to_string()), Some("a".to_string())), (None, Some("b".to_string()))]);
    assert_eq!(last_page(&obj(vec![("pagination", obj(vec![("last_page", n(3))]))])), 3);
    assert_eq!(last_page(&obj(vec![])), 1);
    assert!(more_pages(1, 3, 10));
    assert!(!more_pages(3, 3, 10));
    assert!(!more_pages(1, 3, 601));
    assert!(more_pages(1, 3, 600));
}

#[test]
fn mal_lookup_name_and_id() {
    assert_eq!(mal_search_name("  Frieren (TV) Dublaj  "), "Frieren");
    assert_eq!(mal_search_name("Jujutsu Kaisen 2. Sezon Altyazılı"), "Jujutsu Kaisen 2.");
    let d = obj(vec![("data", obj(vec![("Media", obj(vec![("idMal", n(52991))]))]))]);
    assert_eq!(mal_id_of(&d), Some(52991));
    assert_eq!(mal_id_of(&obj(vec![("data", obj(vec![("Media", Json::Null)]))])), None);
}

#[test]
fn film_pages_merge_into_one_list() {
    let page = |urls: Vec<&str>, last: u64| {
        obj(vec![(
            "pagination",
            obj(vec![
                ("data", Json::Array(urls.into_iter().map(|u| obj(vec![("url", s(u))])).collect())),
                ("last_page", n(last)),
            ]),
        )])
    };
    let mut merged = page_videos(page(vec!["a", "b"], 2));
    merged.extend(page_videos(page(vec!["c"], 2)));
    assert_eq!(merged.len(), 3);
    assert!(page_videos(obj(vec![])).is_empty());
    let rows = video_rows(&videos_doc(merged));
    let urls: Vec<&str> = rows.iter().map(|r| r.url.as_str()).collect();
    assert_eq!(urls, vec!["a", "b", "c"]);
}
