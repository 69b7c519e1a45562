use animecix::catalog::{Episode, Title};
use animecix::json::{answer_json, as_string, as_u64, migrate_state, state_from_text, state_json, title_in_lists, val_to_title, Json};
use animecix::library::{HistoryEntry, MarathonItem, State};
use animecix::library::Watched;
use std::collections::HashMap;

fn s(x: &str) -> Json {
    Json::Str(x.to_string())
}

fn n(x: u64) -> Json {
    Json::Number(Some(x), Some(x as i64))
}

fn obj(e: Vec<(&str, Json)>) -> Json {
    Json::Object(e.into_iter().map(|(k, v)| (k.to_string(), v)).collect())
}

#[test]
fn migrate_state_recovers_bare_id_and_alias_fields() {
    let value = obj(vec![
        (
            "marathon",
            Json::Array(vec![obj(vec![("title", n(777)), ("completed", Json::Bool(false)), ("added_at", n(1))])]),
        ),
        ("saved", Json::Array(vec![obj(vec![("title", s("Eski Favori")), ("id", n(999))])])),
    ]);
    let st = migrate_state(&value, None, HashMap::new(), Vec::new());
    assert_eq!(st.marathon.len(), 1, "bozuk kayıt state'i çökertmemeli");
    assert_eq!(st.marathon[0].title.id, 777, "düz id'den Title.id çıkarılmalı");
    assert_eq!(st.saved.len(), 1);
    assert_eq!(st.saved[0].name, "Eski Favori", "eski `title` alanı isim olarak okunmalı");
    assert_eq!(st.saved[0].id, 999);
}

#[test]
fn migrate_state_history_flags_and_non_objects() {
    let value = obj(vec![
        (
            "history",
            Json::Array(vec![
                obj(vec![("title", obj(vec![("id", n(5)), ("name", s("A"))])), ("ts", n(9))]),
                obj(vec![("title", s("Yalnız isim"))]),
                obj(vec![("episode", n(1))]),
            ]),
        ),
        ("welcome_seen", Json::Bool(true)),
        ("search_tip_seen", n(1)),
    ]);
    let eps = vec![
        Some(Episode { episode: 3, season: 1, name: "Üç".to_string() }),
        None,
        Some(Episode { episode: 1, season: 1, name: "Bir".to_string() }),
    ];
    let cur = Watched { title_id: 5, episode: 3, season: 1 };
    let mut w = HashMap::new();
    w.insert(5u64, vec![cur]);
    let st = migrate_state(&value, Some(cur), w, eps);
    // Only the entry with both a title and an episode stays.
    assert_eq!(st.history.len(), 1);
    assert_eq!(st.history[0].title.id, 5);
    assert_eq!(st.history[0].episode.name, "Üç");
    assert_eq!(st.history[0].ts, 9);
    assert!(st.welcome_seen);
    // A flag that is not a boolean reads as false.
    assert!(!st.search_tip_seen);
    assert_eq!(st.current.map(|c| c.episode), Some(3));
    assert_eq!(st.watched.get(&5).map(|l| l.len()), Some(1));
    // A document that is not an object gives nothing, whatever else was read.
    let empty = migrate_state(&Json::Array(Vec::new()), Some(cur), HashMap::new(), Vec::new());
    assert!(empty.current.is_none() && empty.saved.is_empty() && empty.marathon.is_empty());
}

#[test]
fn val_to_title_reads_old_shapes() {
    let t = val_to_title(&obj(vec![
        ("title_id", n(4)),
        ("title", s("Eski")),
        ("type", s("movie")),
        ("image", s("http://p")),
        ("seasons", n(2)),
        ("year", n(2001)),
    ]))
    .unwrap();
    assert_eq!(t.id, 4);
    assert_eq!(t.name, "Eski");
    assert_eq!(t.title_type.as_deref(), Some("movie"));
    assert_eq!(t.poster.as_deref(), Some("http://p"));
    assert_eq!(t.season_count, Some(2));
    assert_eq!(t.year, Some(2001));
    // New names win over old ones.
    let u = val_to_title(&obj(vec![("id", n(1)), ("title_id", n(2)), ("name", s("Yeni")), ("title", s("Eski"))])).unwrap();
    assert_eq!((u.id, u.name.as_str()), (1, "Yeni"));
    assert_eq!(val_to_title(&n(8)).unwrap().id, 8);
    assert_eq!(val_to_title(&s("Ad")).unwrap().name, "Ad");
    assert!(val_to_title(&Json::Null).is_none());
    assert!(val_to_title(&Json::Bool(true)).is_none());
}

#[test]
fn from_value_needs_an_id_and_drops_empty_type() {
    assert!(Title::from_value(&obj(vec![("name", s("X"))])).is_none());
    let t = Title::from_value(&obj(vec![
        ("title_id", n(3)),
        ("title_type", s("")),
        ("genres", Json::Array(vec![s("Dram"), obj(vec![("name", s("aksiyon"))]), n(1)])),
    ]))
    .unwrap();
    assert_eq!(t.id, 3);
    assert_eq!(t.name, "");
    assert!(t.title_type.is_none());
    assert_eq!(t.genres, Some(vec!["Dram".to_string(), "aksiyon".to_string()]));
}

#[test]
fn title_in_lists_finds_first_match() {
    let lists = obj(vec![(
        "lists",
        Json::Array(vec![
            obj(vec![("name", s("Popüler")), ("items", Json::Array(vec![obj(vec![("id", n(1)), ("name", s("Bir"))])]))]),
            obj(vec![(
                "items",
                Json::Array(vec![
                    obj(vec![
                        ("title_id", n(777)),
                        ("name", s("Hidratasyon Testi")),
                        ("title_type", s("anime")),
                        ("year", n(2021)),
                        ("season_count", n(2)),
                        ("poster", Json::Null),
                    ]),
                    obj(vec![("id", n(777)), ("name", s("İkinci"))]),
                ]),
            )]),
        ]),
    )]);
    let t = title_in_lists(&lists, 777).unwrap();
    assert_eq!(t.name, "Hidratasyon Testi");
    assert_eq!(t.title_type.as_deref(), Some("anime"));
    assert_eq!(t.year, Some(2021));
    assert_eq!(t.season_count, Some(2));
    assert!(t.poster.is_none());
    assert!(title_in_lists(&lists, 5).is_none());
    assert!(title_in_lists(&Json::Null, 777).is_none());
}

#[test]
fn stored_records_read_back() {
    let t = Title {
        id: 4242,
        name: "Deneme Anime".to_string(),
        year: Some(2023),
        title_type: Some("anime".to_string()),
        poster: Some("http://x/p.png".to_string()),
        season_count: Some(2),
        genres: Some(vec!["Dram".to_string()]),
        ..Default::default()
    };
    let e = Episode { episode: 3, season: 1, name: "Üç".to_string() };
    let mut st = State::new();
    st.saved.push(t.copy());
    st.history.push(HistoryEntry { title: t.copy(), episode: e.copy(), ts: 77 });
    st.marathon.push(MarathonItem { title: t.copy(), completed: true, added_at: 5 });
    st.welcome_seen = true;
    st.right_click_tip_seen = true;
    let doc = state_json(&st);
    let eps: Vec<Option<Episode>> = st.history.iter().map(|h| Some(h.episode.copy())).collect();
    let back = migrate_state(&doc, None, HashMap::new(), eps);
    assert_eq!(back.saved.len(), 1);
    assert_eq!(back.saved[0].name, "Deneme Anime", "isim korunmalı");
    assert_eq!(back.saved[0].meta_line(), t.meta_line(), "meta korunmalı");
    assert_eq!(back.saved[0].poster.as_deref(), Some("http://x/p.png"));
    // Catalogue details are not kept with the records.
    assert!(back.saved[0].genres.is_none());
    assert_eq!(back.history[0].ts, 77);
    assert_eq!(back.history[0].episode.name, "Üç");
    assert!(back.marathon[0].completed);
    assert_eq!(back.marathon[0].added_at, 5);
    assert!(back.welcome_seen && back.right_click_tip_seen && !back.search_tip_seen);
}

#[test]
fn state_from_text_reads_stored_text() {
    let text = "{\"saved\":[{\"id\":3,\"name\":\"Bir\"},null],\"welcome_seen\":true,\"marathon\":[{\"title\":{\"id\":4,\"name\":\"Dört\"},\"completed\":true}]}";
    let cur = Some(Watched { title_id: 3, episode: 2, season: 1 });
    let st = state_from_text(text, cur, HashMap::new(), Vec::new());
    assert_eq!(st.saved.len(), 1);
    assert_eq!(st.saved[0].id, 3);
    assert_eq!(st.saved[0].name, "Bir");
    assert!(st.welcome_seen);
    assert_eq!(st.marathon.len(), 1);
    assert_eq!(st.marathon[0].title.name, "Dört");
    assert!(st.marathon[0].completed);
    assert_eq!(st.current.map(|w| w.episode), Some(2));
}

#[test]
fn state_from_text_not_json_is_empty() {
    let cur = Some(Watched { title_id: 3, episode: 2, season: 1 });
    let st = state_from_text("{bozuk", cur, HashMap::new(), Vec::new());
    assert!(st.current.is_none());
    assert!(st.saved.is_empty() && st.history.is_empty() && st.marathon.is_empty());
    assert!(!st.welcome_seen);
    assert!(state_from_text("", None, HashMap::new(), Vec::new()).saved.is_empty());
}

#[test]
fn answer_json_and_take() {
    let v = answer_json("{\"a\":{\"b\":7},\"c\":\"d\"}").ok().expect("JSON");
    assert_eq!(as_u64(v.get("a").and_then(|a| a.get("b"))), Some(7));
    assert_eq!(as_string(v.get("c")).as_deref(), Some("d"));
    let a = v.take("a").expect("a");
    assert_eq!(as_u64(a.get("b")), Some(7));
    assert!(answer_json("[1,").is_err());
    assert!(Json::Null.take("a").is_none());
}
