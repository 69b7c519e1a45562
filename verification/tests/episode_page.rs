use animecix::catalog::Episode;
use animecix::episode_page::{
    bookmark_look, episode_query, episode_row_title, episode_visible, fansub_count_text, film_layout, marathon_look,
    marathon_toast, quick_search_tip, search_placeholder, shortcut_triggered, shown_description, source_count_text,
    votes_badge, watched_menu_label, watched_progress_label, watched_toast,
};

fn ep(season: u64, episode: u64, name: &str) -> Episode {
    Episode { season, episode, name: name.to_string() }
}

#[test]
fn film_layout_by_type_or_single_film_entry() {
    assert!(film_layout(&Some("movie".to_string()), &[]));
    assert!(film_layout(&None, &[ep(1, 1, "Filmi izle")]));
    assert!(!film_layout(&None, &[ep(1, 1, "Bölüm 1")]));
    assert!(!film_layout(&Some("anime".to_string()), &[ep(1, 1, "Filmi izle"), ep(1, 2, "Filmi izle")]));
    assert!(!film_layout(&None, &[]));
}

#[test]
fn quick_search_shortcuts() {
    assert!(shortcut_triggered("Ctrl+F", "f", true));
    assert!(!shortcut_triggered("Ctrl+F", "f", false));
    assert!(shortcut_triggered("Ctrl+K", "K", true));
    assert!(shortcut_triggered("F3", "F3", false));
    assert!(shortcut_triggered("/", "slash", false));
    assert!(shortcut_triggered("bilinmeyen", "kp_divide", false));
    assert!(!shortcut_triggered("/", "a", false));
}

#[test]
fn quick_search_filter() {
    let e = ep(1, 5, "Büyük Savaş");
    assert_eq!(episode_query("  S01E05 "), "s01e05");
    assert!(episode_visible("", &e));
    assert!(episode_visible("5", &e));
    assert!(episode_visible("e5", &e));
    assert!(episode_visible(&episode_query("S01E05"), &e));
    assert!(episode_visible("savaş", &e));
    assert!(!episode_visible("e6", &e));
    assert!(!episode_visible("05", &e));
    let f = ep(2, 12, "Son");
    assert!(episode_visible("s02e12", &f));
}

#[test]
fn episode_page_texts() {
    assert_eq!(search_placeholder("F3"), "Bölüm numarası veya adı ara… (F3)");
    assert_eq!(episode_row_title(1, 3, "Ad"), "S01 E03   Ad");
    assert_eq!(watched_menu_label(true), "✖ İzlenmedi Olarak İşaretle");
    assert_eq!(watched_toast(false), "✅ İzlendi olarak işaretlendi");
    assert_eq!(bookmark_look(true), ("starred-symbolic", "Favorilerden Çıkar"));
    assert_eq!(marathon_look(false), ("flag-symbolic", "İzleme Maratonuna Ekle"));
    assert_eq!(marathon_toast(true), "🏆 İzleme Maratonuna eklendi!");
}

#[test]
fn picker_and_detail_texts() {
    assert_eq!(shown_description(&Some("  Uzun bir hikâye. \n".to_string())), Some("Uzun bir hikâye.".to_string()));
    assert_eq!(shown_description(&Some("   ".to_string())), None);
    assert_eq!(shown_description(&None), None);
    assert_eq!(source_count_text(3), "3 kaynak bulundu");
    assert_eq!(fansub_count_text(0), "Çeviri bulunamadı");
    assert_eq!(fansub_count_text(2), "2 çeviri mevcut");
    assert_eq!(votes_badge(12), Some("👍 12".to_string()));
    assert_eq!(votes_badge(0), None);
    assert_eq!(
        quick_search_tip("/"),
        "Klavyeden '/' kısayoluna basarak bölüm listesinde hızlıca arama yapabilirsiniz."
    );
    assert_eq!(watched_progress_label(75, 3725), "İzlendi: 1:15 / 1:02:05");
}
