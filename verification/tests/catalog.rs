use animecix::catalog::{enrich_title, find_by_id, hydrate_title, search_needed, tr_genre, Category, Title};
use animecix::json::Json;

fn s(x: &str) -> Json {
    Json::Str(x.to_string())
}

fn n(x: u64) -> Json {
    Json::Number(Some(x), Some(x as i64))
}

fn obj(e: Vec<(&str, Json)>) -> Json {
    Json::Object(e.into_iter().map(|(k, v)| (k.to_string(), v)).collect())
}

fn sample(tt: &str, year: Option<i64>, seasons: Option<i64>) -> Title {
    Title {
        id: 1,
        name: "X".to_string(),
        year,
        title_type: Some(tt.to_string()),
        poster: None,
        description: None,
        season_count: seasons,
        ..Default::default()
    }
}

#[test]
fn meta_line_anime_with_seasons() {
    let t = sample("anime", Some(2021), Some(2));
    assert_eq!(t.meta_line(), "2021  •  Anime Serisi  •  2 Sezon");
}

#[test]
fn detail_meta_parses_real_shape() {
    let v = obj(vec![
        ("id", n(11130)),
        ("name", s("Sousou no Frieren")),
        ("year", n(2023)),
        ("title_type", s("anime")),
        ("runtime", n(24)),
        ("episode_count", n(38)),
        ("release_date", s("2023-09-29")),
        (
            "genres",
            Json::Array(vec![
                obj(vec![("name", s("drama")), ("display_name", s("Dram"))]),
                obj(vec![("name", s("animation")), ("display_name", s("Animasyon"))]),
                obj(vec![("name", s("sci-fi-fantasy")), ("display_name", s("Sci-Fi & Fantasy"))]),
                obj(vec![("name", s("action-adventure")), ("display_name", s("Action & Adventure"))]),
            ]),
        ),
    ]);
    let t = Title::from_value(&v).unwrap();
    assert_eq!(t.display_name(), "Sousou no Frieren (2023)");
    assert_eq!(
        t.genre_line(),
        Some("Dram  •  Bilim Kurgu & Fantezi  •  Aksiyon & Macera".to_string())
    );
    assert_eq!(
        t.detail_facts(),
        vec!["24 dakika".to_string(), "38 bölüm".to_string(), "Yayın: 29/9/2023".to_string()]
    );
}

#[test]
fn meta_line_movie_no_seasons() {
    let t = sample("movie", Some(2019), None);
    assert_eq!(t.meta_line(), "2019  •  Film");
}

#[test]
fn meta_line_other_type_seasons() {
    let t = sample("something", Some(2020), Some(5));
    assert_eq!(t.meta_line(), "2020  •  Dizi  •  5 Sezon");
}

#[test]
fn meta_line_matches_between_marathon_and_favs() {
    let a = sample("anime", Some(2022), Some(3));
    let b = sample("anime", Some(2022), Some(3));
    assert_eq!(a.meta_line(), b.meta_line());
}

#[test]
fn meta_line_without_any_part_is_empty() {
    let t = Title { id: 2, name: "Y".to_string(), ..Default::default() };
    assert_eq!(t.meta_line(), "");
}

#[test]
fn display_name_without_year_is_the_name() {
    let t = Title { id: 3, name: "Naruto".to_string(), ..Default::default() };
    assert_eq!(t.display_name(), "Naruto");
}

#[test]
fn tr_genre_lowercases_and_trims() {
    // The lookup goes through the lowercase form: capitals and outer spaces do not matter.
    assert_eq!(tr_genre("  DRAMA "), "Dram");
    assert_eq!(tr_genre("Sci-Fi & Fantasy"), "Bilim Kurgu & Fantezi");
    assert_eq!(tr_genre("Animation"), "Animasyon");
    // Unknown names come back exactly as given.
    assert_eq!(tr_genre(" Isekai "), " Isekai ");
}

#[test]
fn genre_line_drops_animation_and_repeats() {
    let t = Title {
        genres: Some(vec!["Animation".to_string(), "Drama".to_string(), "Dram".to_string(), "Comedy".to_string()]),
        ..Default::default()
    };
    assert_eq!(t.genre_line(), Some("Dram  •  Komedi".to_string()));
    let only = Title { genres: Some(vec!["Animasyon".to_string()]), ..Default::default() };
    assert_eq!(only.genre_line(), None);
    let none = Title::default();
    assert_eq!(none.genre_line(), None);
}

#[test]
fn detail_facts_movie_and_bad_date() {
    let t = Title {
        title_type: Some("movie".to_string()),
        runtime: Some(0),
        episode_count: None,
        release_date: Some("2020-13".to_string()),
        ..Default::default()
    };
    assert_eq!(t.detail_facts(), vec!["Film".to_string()]);
}

#[test]
fn hydrate_fills_only_missing_parts() {
    let src = Title {
        id: 7,
        name: "Dolu".to_string(),
        year: Some(2001),
        title_type: Some("anime".to_string()),
        poster: Some("p".to_string()),
        description: Some("d".to_string()),
        season_count: Some(2),
        ..Default::default()
    };
    let mut t = Title { id: 7, year: Some(1999), ..Default::default() };
    assert!(!t.is_complete());
    assert!(t.fill_from_cache(&src));
    assert_eq!(t.name, "Dolu");
    assert_eq!(t.year, Some(1999));
    assert_eq!(t.season_count, Some(2));
    assert!(t.is_complete());
    let mut named = Title { id: 7, name: "Eski".to_string(), ..Default::default() };
    assert!(named.fill_from_cache(&src));
    assert_eq!(named.name, "Eski");
    assert_eq!(named.poster.as_deref(), Some("p"));
    let mut full = named.clone();
    assert!(!full.fill_from_cache(&src));
    assert_eq!(full.name, "Eski");
    assert_eq!(full.description.as_deref(), Some("d"));
    let mut nameless = Title { id: 7, description: Some("kendi".to_string()), ..Default::default() };
    nameless.fill_from_search(&src);
    assert_eq!(nameless.name, "Dolu");
    assert_eq!(nameless.description.as_deref(), Some("kendi"));
}

#[test]
fn enrich_from_home_lists() {
    let listed = Title { id: 5, name: "Liste".to_string(), runtime: Some(24), ..Default::default() };
    let cats = vec![
        Category { name: "A".to_string(), items: vec![Title { id: 1, ..Default::default() }] },
        Category { name: "B".to_string(), items: vec![listed.clone(), Title { id: 5, name: "ikinci".to_string(), ..Default::default() }] },
    ];
    let bare = Title { id: 5, name: "Kayıt".to_string(), ..Default::default() };
    assert_eq!(enrich_title(&bare, &cats).name, "Liste");
    let detailed = Title { id: 5, name: "Kendi".to_string(), genres: Some(vec!["Dram".to_string()]), ..Default::default() };
    assert_eq!(enrich_title(&detailed, &cats).name, "Kendi");
    let unknown = Title { id: 9, name: "Yok".to_string(), ..Default::default() };
    assert_eq!(enrich_title(&unknown, &cats).name, "Yok");
    assert_eq!(find_by_id(&cats[1].items, 5).unwrap().name, "Liste");
    assert!(find_by_id(&cats[0].items, 5).is_none());
}

#[test]
fn enrich_title_short_circuits_when_populated() {
    let mut t = sample("anime", Some(2021), Some(2));
    t.genres = Some(vec!["Dram".to_string()]);
    let e = enrich_title(&t, &Vec::new());
    assert_eq!(e.id, t.id);
    assert_eq!(e.genres, Some(vec!["Dram".to_string()]));
}

#[test]
fn hydrate_title_cache_then_search() {
    let src = Title {
        id: 7,
        name: "Dolu".to_string(),
        year: Some(2001),
        title_type: Some("anime".to_string()),
        season_count: Some(2),
        poster: Some("p".to_string()),
        ..Default::default()
    };
    let complete = src.clone();
    let mut c = complete.clone();
    assert!(!search_needed(&c, &None));
    assert!(!hydrate_title(&mut c, Some(Title { id: 7, description: Some("x".to_string()), ..Default::default() }), None));
    assert_eq!(c.description, None);

    let mut named = Title { id: 7, name: "Eski".to_string(), ..Default::default() };
    assert!(!search_needed(&named, &None));
    assert!(!hydrate_title(&mut named, None, Some(src.clone())));
    assert_eq!(named.poster, None);
    assert!(hydrate_title(&mut named, Some(src.clone()), None));
    assert_eq!(named.name, "Eski");
    assert_eq!(named.year, Some(2001));

    let mut nameless = Title { id: 7, ..Default::default() };
    assert!(search_needed(&nameless, &None));
    assert!(!search_needed(&nameless, &Some(src.clone())));
    assert!(!hydrate_title(&mut nameless, None, None));
    assert!(hydrate_title(&mut nameless, None, Some(src.clone())));
    assert_eq!(nameless.name, "Dolu");
    assert!(nameless.is_complete());
}
