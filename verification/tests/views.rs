use animecix::views::{
    centered_hotspot, compute_reorder, delete_label, displayed_after_remove, drop_request, history_subtitle,
    marathon_stats, marathon_summary, percent_label, status_badge, Selection,
};

#[test]
fn compute_reorder_moves_one_id() {
    assert_eq!(compute_reorder(&[1, 2, 3, 4], 1, 2), vec![2, 3, 1, 4]);
    assert_eq!(compute_reorder(&[1, 2, 3, 4], 4, 0), vec![4, 1, 2, 3]);
    // A target past the end puts it last.
    assert_eq!(compute_reorder(&[1, 2, 3], 1, 99), vec![2, 3, 1]);
    // An unknown id leaves the order alone.
    assert_eq!(compute_reorder(&[1, 2, 3], 9, 0), vec![1, 2, 3]);
}

#[test]
fn centered_hotspot_halves() {
    assert_eq!(centered_hotspot(100, 40), (50, 20));
    assert_eq!(centered_hotspot(7, 3), (3, 1));
    assert_eq!(centered_hotspot(-7, 0), (-3, 0));
}

#[test]
fn displayed_after_remove_drops_every_copy() {
    assert_eq!(displayed_after_remove(&[5, 6, 5, 7], 5), vec![6, 7]);
    assert_eq!(displayed_after_remove(&[], 5), Vec::<u64>::new());
}

#[test]
fn drop_requests() {
    assert_eq!(drop_request(Some("42"), 7, 3), Some((42, 3)));
    assert_eq!(drop_request(Some("7"), 7, 3), None);
    assert_eq!(drop_request(Some("x"), 7, 3), None);
    assert_eq!(drop_request(None, 7, 3), None);
}

#[test]
fn marathon_summary_counts_and_rounds_down() {
    assert_eq!(marathon_stats(&[true, false, false]), (1, 3, 33));
    assert_eq!(marathon_stats(&[true, true]), (2, 2, 100));
    assert_eq!(marathon_stats(&[]), (0, 0, 0));
    assert_eq!(marathon_summary(1, 3), "1 / 3 Anime Tamamlandı");
    assert_eq!(percent_label(33), "%33");
    assert_eq!(status_badge(true), "🏁 Tamamlandı");
    assert_eq!(status_badge(false), "⏳ Devam Ediyor");
}

#[test]
fn history_subtitle_pads_numbers() {
    assert_eq!(history_subtitle(1, 5, "Başlangıç"), "S01 E05 · Başlangıç");
    assert_eq!(history_subtitle(12, 130, "x"), "S12 E130 · x");
}

#[test]
fn selection_follows_check_boxes() {
    let mut s = Selection::new();
    s.set_checked(3, true);
    s.set_checked(5, true);
    s.set_checked(3, true);
    assert_eq!(s.ids, vec![3, 5]);
    assert_eq!(delete_label(s.count()), "Seçilenleri Sil (2)");
    s.set_checked(3, false);
    assert_eq!(s.ids, vec![5]);
    s.set_checked(9, false);
    assert_eq!(s.count(), 1);
}
