use animecix::catalog::Episode;
use animecix::flashcard::{
    common_fansubs, common_heading, episode_heading, find_template, skipped_note, summary_line, FansubInfo,
    FansubTour, PageKind,
};

/// An ordering key for a rating: larger ratings give larger keys.
fn key(r: f64) -> i64 {
    let b = r.to_bits() as i64;
    if b < 0 {
        b ^ i64::MAX
    } else {
        b
    }
}

fn ep(season: u64, episode: u64) -> Episode {
    Episode { season, episode, name: format!("B{episode}") }
}

fn fs(tpl: i64, name: &str, rating: f64) -> FansubInfo {
    FansubInfo { template_id: tpl, name: name.into(), rating_key: key(rating) }
}

#[test]
fn common_fansubs_intersection_and_rating_order() {
    let items = vec![
        (ep(1, 1), vec![fs(1, "A", 9.0), fs(2, "B", 7.0), fs(3, "C", 8.0)]),
        (ep(1, 2), vec![fs(2, "B", 7.0), fs(3, "C", 8.0)]),
        (ep(1, 3), vec![fs(3, "C", 8.0), fs(4, "D", 9.5)]),
    ];
    let c = common_fansubs(&items);
    assert_eq!(c.len(), 1);
    assert_eq!(c[0].template_id, 3);
    let items2 = vec![
        (ep(1, 1), vec![fs(1, "A", 9.0), fs(2, "B", 7.0)]),
        (ep(1, 2), vec![fs(2, "B", 7.0), fs(1, "A", 9.0)]),
    ];
    let c2 = common_fansubs(&items2);
    assert_eq!(c2.len(), 2);
    assert_eq!(c2[0].template_id, 1, "yüksek puan önce");
}

#[test]
fn common_fansubs_empty_cases() {
    let empty: Vec<(Episode, Vec<FansubInfo>)> = Vec::new();
    assert!(common_fansubs(&empty).is_empty());
    let no_overlap = vec![(ep(1, 1), vec![fs(1, "A", 9.0)]), (ep(1, 2), vec![fs(2, "B", 9.0)])];
    assert!(common_fansubs(&no_overlap).is_empty(), "kesişim yoksa kart çıkmaz");
    let one_empty = vec![(ep(1, 1), vec![fs(1, "A", 9.0)]), (ep(1, 2), Vec::new())];
    assert!(common_fansubs(&one_empty).is_empty());
}

#[test]
fn find_template_shapes() {
    let list = vec![fs(1, "A", 9.0), fs(2, "B", 7.0)];
    assert_eq!(find_template(&list, 2).map(|f| f.name), Some("B".to_string()));
    assert!(find_template(&list, 9).is_none());
}

#[test]
fn common_fansubs_keep_first_order_on_equal_ratings() {
    let items = vec![
        (ep(1, 1), vec![fs(5, "E", 8.0), fs(6, "F", 8.0), fs(7, "G", 9.0)]),
        (ep(1, 2), vec![fs(6, "F", 8.0), fs(7, "G", 9.0), fs(5, "E", 8.0)]),
    ];
    let ids: Vec<i64> = common_fansubs(&items).iter().map(|f| f.template_id).collect();
    assert_eq!(ids, vec![7, 5, 6]);
}

#[test]
fn tour_pages_preselection_and_result() {
    let items = vec![
        (ep(1, 1), vec![fs(1, "A", 9.0), fs(2, "B", 7.0)]),
        (ep(1, 2), Vec::new()),
        (ep(1, 3), vec![fs(2, "B", 7.0)]),
    ];
    let mut t = FansubTour::new(items);
    // Template 2 is in both toured episodes but episode 2 has none: no common page.
    assert!(t.commons.is_empty());
    assert_eq!(t.tour, vec![0, 2]);
    assert_eq!(t.pages, vec![PageKind::Ep(0), PageKind::Ep(2), PageKind::Summary]);
    assert_eq!(t.skipped_empty(), 1);
    // A lone translator comes chosen.
    assert_eq!(t.choice, vec![None, Some(0)]);
    assert_eq!(t.caption(), "Bölüm 1/2");
    assert_eq!(t.page_name(), "pg_ep0");
    assert_eq!(t.next_label(), "İleri →");
    assert!(!t.can_next());
    assert!(!t.can_go_back());
    assert!(t.on_episode_page());
    t.pick(0, 1);
    assert_eq!(t.current_choice(), Some(2));
    assert!(t.can_next());
    assert!(!t.next(false));
    assert_eq!(t.next_label(), "Özete Git →");
    assert!(!t.next(false));
    assert_eq!(t.caption(), "Özet");
    assert_eq!(t.next_label(), "Bitir ✓");
    assert!(t.can_next());
    assert!(t.next(false));
    assert_eq!(t.result(), vec![(0, 1), (2, 0)]);
    t.back();
    assert_eq!(t.page, 1);
}

#[test]
fn tour_common_page_and_apply_to_all() {
    let items = vec![
        (ep(1, 1), vec![fs(1, "A", 9.0), fs(2, "B", 7.0)]),
        (ep(1, 2), vec![fs(2, "B", 7.0), fs(1, "A", 9.0)]),
        (ep(1, 3), vec![fs(3, "C", 5.0), fs(2, "B", 7.0)]),
    ];
    let mut t = FansubTour::new(items);
    assert_eq!(t.commons.iter().map(|f| f.template_id).collect::<Vec<_>>(), vec![2]);
    assert_eq!(t.pages[0], PageKind::Common);
    assert_eq!(t.caption(), "Ortak Çevirmenler");
    assert_eq!(t.next_label(), "Tek tek seç →");
    assert!(t.can_next());
    // Picking the common translator fills every episode and shows the summary.
    let mut c = FansubTour::new(t.items.iter().map(|(e, l)| (e.copy(), l.iter().map(|f| f.copy()).collect())).collect());
    c.pick_common(2);
    assert_eq!(c.choice, vec![Some(1), Some(0), Some(1)]);
    assert_eq!(c.page, 4);
    // Apply to all: only undecided episodes that offer the template follow.
    assert!(!t.next(false));
    t.pick(0, 0);
    assert!(!t.next(true));
    assert_eq!(t.choice, vec![Some(0), Some(1), None]);
    t.skip();
    assert_eq!(t.page, 3);
    t.pick(2, 0);
    assert_eq!(t.result(), vec![(0, 0), (1, 1), (2, 0)]);
}

#[test]
fn tour_texts() {
    assert_eq!(summary_line(1, 2, Some(("Grup", "8.5"))), "S01E02 → Grup (8.5★)");
    assert_eq!(summary_line(1, 12, None), "S01E12 → atlanacak");
    assert_eq!(skipped_note(2), "2 bölümde çeviri yok (atlanacak)");
    assert_eq!(episode_heading(2, 3, "Ad"), "S02E03 — Ad");
    assert_eq!(
        common_heading("Frieren"),
        "Bu çevirmenler seçili tüm bölümlerde var — birini seç, hepsi bitsin.\nFrieren"
    );
}
