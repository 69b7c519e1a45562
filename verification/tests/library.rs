use animecix::catalog::{Episode, Title};
use animecix::library::{sort_watched, watched_episode_count, State, Watched, HISTORY_LIMIT};

fn title(id: u64, name: &str) -> Title {
    Title { id, name: name.to_string(), year: Some(2023), title_type: Some("anime".to_string()), ..Default::default() }
}

fn ep(season: u64, episode: u64) -> Episode {
    Episode { episode, season, name: format!("B{episode}") }
}

#[test]
fn watched_read_after_write() {
    let mut st = State::new();
    assert!(!st.is_watched(7, 1, 3));
    st.save_watched(&Watched { title_id: 7, episode: 3, season: 1 });
    assert!(st.is_watched(7, 1, 3));
    assert!(!st.is_watched(7, 1, 4));
    assert!(!st.is_watched(8, 1, 3));
    assert_eq!(st.current, Some(Watched { title_id: 7, episode: 3, season: 1 }));
    st.remove_watched(7, 1, 3);
    assert!(!st.is_watched(7, 1, 3));
}

#[test]
fn set_current_does_not_mark_watched() {
    let mut st = State::new();
    st.set_current(&Watched { title_id: 9, episode: 2, season: 1 });
    assert!(!st.is_watched(9, 1, 2));
    assert_eq!(st.current, Some(Watched { title_id: 9, episode: 2, season: 1 }));
}

#[test]
fn save_watched_keeps_list_ordered_and_single() {
    let mut st = State::new();
    for (s, e) in [(2, 1), (1, 5), (1, 2), (1, 5)] {
        st.save_watched(&Watched { title_id: 1, episode: e, season: s });
    }
    let list = st.watched.get(&1).unwrap();
    let pairs: Vec<(u64, u64)> = list.iter().map(|w| (w.season, w.episode)).collect();
    assert_eq!(pairs, vec![(1, 2), (1, 5), (2, 1)]);
}

#[test]
fn sort_watched_by_season_then_episode() {
    let v = vec![
        Watched { title_id: 1, episode: 1, season: 3 },
        Watched { title_id: 1, episode: 10, season: 1 },
        Watched { title_id: 1, episode: 2, season: 1 },
    ];
    let s = sort_watched(&v);
    let pairs: Vec<(u64, u64)> = s.iter().map(|w| (w.season, w.episode)).collect();
    assert_eq!(pairs, vec![(1, 2), (1, 10), (3, 1)]);
}

#[test]
fn toggle_saved_twice_restores() {
    let mut st = State::new();
    let t = title(5, "A");
    assert!(st.toggle_saved(&t));
    assert!(st.is_saved(5));
    assert!(!st.toggle_saved(&t));
    assert!(!st.is_saved(5));
    assert!(st.saved.is_empty());
}

#[test]
fn toggle_saved_puts_newest_first() {
    let mut st = State::new();
    st.toggle_saved(&title(1, "A"));
    st.toggle_saved(&title(2, "B"));
    let ids: Vec<u64> = st.saved.iter().map(|t| t.id).collect();
    assert_eq!(ids, vec![2, 1]);
}

#[test]
fn marathon_toggle_complete_reorder_remove() {
    let mut st = State::new();
    assert!(st.toggle_marathon(&title(1, "A"), 100));
    assert!(st.toggle_marathon(&title(2, "B"), 200));
    assert!(st.toggle_marathon(&title(3, "C"), 300));
    assert!(st.is_in_marathon(2));
    let m = st.get_marathon();
    assert_eq!(m.len(), 3);
    assert_eq!(m[1].title.name, "B");
    assert_eq!(m[1].added_at, 200);
    assert!(!m[1].completed);
    assert!(st.toggle_marathon_completed(2));
    assert!(!st.toggle_marathon_completed(2));
    assert!(!st.toggle_marathon_completed(42));
    st.reorder_marathon(3, 0);
    let ids: Vec<u64> = st.get_marathon().iter().map(|m| m.title.id).collect();
    assert_eq!(ids, vec![3, 1, 2]);
    st.remove_from_marathon(1);
    assert!(!st.is_in_marathon(1));
    assert!(!st.toggle_marathon(&title(3, "C"), 400));
    let ids: Vec<u64> = st.get_marathon().iter().map(|m| m.title.id).collect();
    assert_eq!(ids, vec![2]);
    st.clear_marathon();
    assert!(st.get_marathon().is_empty());
}

#[test]
fn marathon_keeps_title_and_meta() {
    let mut st = State::new();
    let t = title(4242, "Deneme Anime");
    st.toggle_marathon(&t, 1);
    let m = st.get_marathon();
    assert_eq!(m[0].title.name, "Deneme Anime");
    assert_eq!(m[0].title.meta_line(), t.meta_line());
}

#[test]
fn history_newest_first_without_repeats_and_capped() {
    let mut st = State::new();
    for i in 0..40u64 {
        st.add_history(&title(i, "T"), &ep(1, 1), i);
    }
    assert_eq!(st.history.len(), HISTORY_LIMIT);
    assert_eq!(st.history[0].title.id, 39);
    st.add_history(&title(20, "T"), &ep(1, 2), 99);
    assert_eq!(st.history.len(), HISTORY_LIMIT);
    assert_eq!(st.history[0].title.id, 20);
    assert_eq!(st.history[0].episode.episode, 2);
    assert_eq!(st.history.iter().filter(|h| h.title.id == 20).count(), 1);
    st.remove_history_items(&[20, 39]);
    assert!(st.history.iter().all(|h| h.title.id != 20 && h.title.id != 39));
    st.clear_history();
    assert!(st.history.is_empty());
}

#[test]
fn tips_flags_round_trip() {
    let mut st = State::new();
    assert!(!st.is_welcome_seen() && !st.is_search_tip_seen());
    st.set_welcome_seen(true);
    st.set_quick_search_tip_seen(true);
    st.set_search_tip_seen(true);
    st.set_right_click_tip_seen(true);
    assert!(st.is_welcome_seen() && st.is_quick_search_tip_seen() && st.is_search_tip_seen() && st.is_right_click_tip_seen());
    st.set_welcome_seen(false);
    assert!(!st.is_welcome_seen());
}

#[test]
fn watched_episode_count_counts_distinct_episodes() {
    let keys: Vec<String> = ["7:1:1", "7:1:2", "7:1:1", "70:1:3", "7:2", "7:1:3:x", "8:1:1"]
        .iter()
        .map(|s| s.to_string())
        .collect();
    assert_eq!(watched_episode_count(&keys, 7), 3);
    assert_eq!(watched_episode_count(&keys, 70), 1);
    assert_eq!(watched_episode_count(&keys, 9), 0);
}

#[test]
fn marathon_persists_full_title_and_meta() {
    let mut st = State::new();
    let before = st.get_marathon().len();
    let t = Title {
        id: 4242,
        name: "Deneme Anime".into(),
        year: Some(2023),
        title_type: Some("anime".into()),
        poster: Some("http://x/p.png".into()),
        description: None,
        season_count: Some(3),
        ..Default::default()
    };
    assert!(st.toggle_marathon(&t, 1));
    // What is stored reads back.
    let doc = animecix::json::state_json(&st);
    let back = animecix::json::migrate_state(&doc, None, std::collections::HashMap::new(), Vec::new());
    let items = back.get_marathon();
    assert_eq!(items.len(), before + 1, "maraton öğesi eklenmeli");
    let mine = items.iter().find(|m| m.title.id == 4242).expect("eklenen öğe bulunmalı");
    assert_eq!(mine.title.name, "Deneme Anime", "isim korunmalı");
    assert!(!mine.title.meta_line().is_empty(), "meta korunmalı");
}

#[test]
fn next_episode_not_marked_watched_before_playing() {
    let mut st = State::new();
    let tid: u64 = 999_991;
    let w1 = Watched { title_id: tid, episode: 1, season: 0 };
    let w2 = Watched { title_id: tid, episode: 2, season: 0 };
    st.set_current(&w1);
    assert!(!st.is_watched(tid, 0, 1), "açılan bölüm henüz izlenmedi sayılmamalı");
    st.save_watched(&w1);
    assert!(st.is_watched(tid, 0, 1), "eşik aşılınca izlendi sayılmalı");
    st.set_current(&w2);
    assert!(!st.is_watched(tid, 0, 2), "sonraki bölüm geçişte izlenmeden tamamlanmamalı");
    st.save_watched(&w2);
    assert!(st.is_watched(tid, 0, 2), "sonraki bölüm izlenince işaretlenmeli");
    st.remove_watched(tid, 0, 1);
    st.remove_watched(tid, 0, 2);
    assert!(!st.is_watched(tid, 0, 1) && !st.is_watched(tid, 0, 2));
}
