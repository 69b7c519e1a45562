use animecix::catalog::Episode;
use animecix::videos::{
    candidate_urls, episode_sources, film_candidates, film_sources, group_sources, home_item_wanted, merge_seasons,
    movie_episodes_from, rank_by_size, season_episodes, EpisodeRow, SourceRow, VideoRow,
};

fn row(ep: u64, season: u64, name: Option<&str>) -> EpisodeRow {
    EpisodeRow { episode_num: ep, season_num: season, name: name.map(str::to_string) }
}

fn ep(season: u64, episode: u64, name: &str) -> Episode {
    Episode { episode, season, name: name.to_string() }
}

fn video(cat: Option<&str>, url: &str, votes: i64) -> VideoRow {
    VideoRow { category: cat.map(str::to_string), url: url.to_string(), votes }
}

#[test]
fn season_episodes_filters_and_names() {
    let rows = vec![
        row(2, 1, Some("İkinci")),
        row(0, 1, Some("yok")),
        row(1, 2, Some("başka sezon")),
        row(1, 1, None),
        row(2, 1, Some("tekrar")),
    ];
    let eps = season_episodes(&rows, 1);
    let got: Vec<(u64, u64, String)> = eps.iter().map(|e| (e.season, e.episode, e.name.clone())).collect();
    assert_eq!(got, vec![(1, 2, "İkinci".to_string()), (1, 1, "Bölüm 1".to_string())]);
}

#[test]
fn merge_seasons_orders_and_dedups() {
    let lists = vec![
        vec![ep(2, 1, "a"), ep(1, 3, "b")],
        vec![ep(1, 1, "c"), ep(1, 3, "later")],
        vec![],
    ];
    let m = merge_seasons(&lists);
    let got: Vec<(u64, u64, &str)> = m.iter().map(|e| (e.season, e.episode, e.name.as_str())).collect();
    assert_eq!(got, vec![(1, 1, "c"), (1, 3, "b"), (2, 1, "a")]);
    assert!(merge_seasons(&Vec::new()).is_empty());
}

#[test]
fn movie_entry_only_with_full_video() {
    let rows = vec![video(Some("trailer"), "http://t", 1), video(Some("full"), "", 2)];
    assert!(movie_episodes_from(&rows).is_empty());
    let rows2 = vec![video(Some("full"), "http://f", 0)];
    let e = movie_episodes_from(&rows2);
    assert_eq!(e.len(), 1);
    assert_eq!((e[0].season, e[0].episode, e[0].name.as_str()), (1, 1, "Filmi izle"));
}

#[test]
fn film_candidates_tau_first_then_votes() {
    let rows = vec![
        video(Some("full"), "https://sibnet.ru/a", 10),
        video(Some("full"), "https://tau-video.xyz/embed/b", 1),
        video(Some("trailer"), "https://tau-video.xyz/embed/t", 99),
        video(Some("full"), "https://streamtape.com/c", 10),
        video(Some("full"), "https://tau-video.xyz/embed/d", 5),
        video(None, "https://x/e", 50),
    ];
    assert_eq!(
        film_candidates(&rows),
        vec![
            "https://tau-video.xyz/embed/d".to_string(),
            "https://tau-video.xyz/embed/b".to_string(),
            "https://sibnet.ru/a".to_string(),
            "https://streamtape.com/c".to_string(),
        ]
    );
    let many: Vec<VideoRow> = (0..12).map(|i| video(Some("full"), &format!("https://h/{i}"), i)).collect();
    let c = film_candidates(&many);
    assert_eq!(c.len(), 8);
    assert_eq!(c[0], "https://h/11");
}

#[test]
fn rank_by_size_largest_first_stable() {
    let found = vec![(10, "a".to_string()), (30, "b".to_string()), (10, "c".to_string()), (30, "d".to_string())];
    assert_eq!(rank_by_size(found), vec!["b", "d", "a", "c"]);
    assert!(rank_by_size(Vec::new()).is_empty());
}

#[test]
fn candidate_urls_tau_first_unique_capped() {
    let g1 = vec!["https://sibnet.ru/1".to_string(), "https://tau-video.xyz/embed/2".to_string(), "".to_string()];
    let g2 = vec!["https://tau-video.xyz/embed/2".to_string(), "https://ok.ru/3".to_string()];
    assert_eq!(
        candidate_urls(&vec![g1, g2]),
        vec!["https://tau-video.xyz/embed/2".to_string(), "https://sibnet.ru/1".to_string(), "https://ok.ru/3".to_string()]
    );
    let big: Vec<String> = (0..20).map(|i| format!("https://h/{i}")).collect();
    assert_eq!(candidate_urls(&vec![big]).len(), 8);
}

#[test]
fn group_sources_by_template() {
    let rows = vec![
        SourceRow { template: 7, votes: 3, url: "a".to_string() },
        SourceRow { template: 2, votes: 1, url: "b".to_string() },
        SourceRow { template: 7, votes: -1, url: "c".to_string() },
    ];
    let g = group_sources(&rows);
    assert_eq!(g.len(), 2);
    assert_eq!((g[0].template, g[0].votes), (7, 2));
    assert_eq!(g[0].urls, vec!["a".to_string(), "c".to_string()]);
    assert_eq!((g[1].template, g[1].votes), (2, 1));
}

#[test]
fn episode_and_film_sources() {
    assert_eq!(episode_sources(&Vec::new()).err(), Some("Kaynak bulunamadı".to_string()));
    let rows = vec![
        SourceRow { template: 1, votes: 4, url: "https://tau-video.xyz/embed/x".to_string() },
        SourceRow { template: 1, votes: 9, url: String::new() },
    ];
    let s = episode_sources(&rows).unwrap();
    assert_eq!(s.len(), 1);
    assert_eq!(s[0].host, "tau-video");
    assert_eq!(s[0].votes, 4);
    let films = vec![video(Some("full"), "https://a.x/1", 1), video(Some("full"), "https://b.x/2", 5), video(Some("x"), "https://c/3", 9)];
    let f = film_sources(&films).unwrap();
    let hosts: Vec<&str> = f.iter().map(|e| e.host.as_str()).collect();
    assert_eq!(hosts, vec!["b", "a"]);
    assert_eq!(film_sources(&vec![video(Some("x"), "u", 1)]).err(), Some("Film kaynağı bulunamadı".to_string()));
}

#[test]
fn home_items_kept() {
    assert!(home_item_wanted("anime", ""));
    assert!(home_item_wanted("movie", "x"));
    assert!(home_item_wanted("", "title"));
    assert!(!home_item_wanted("series", "person"));
}
