use animecix::quality::{available_play_qualities, collect_play_qualities, first_qualifying, mirror_hits, probe_labels, order_labels, qualities_for_mirror};

fn hit(l: &str, u: &str, m: &str) -> (String, String, String) {
    (l.to_string(), u.to_string(), m.to_string())
}

#[test]
fn order_labels_ranks_hd_first() {
    let v = order_labels(vec!["480p".to_string(), "abc".to_string(), "1080p".to_string(), "720p".to_string()]);
    assert_eq!(v, vec!["1080p", "720p", "480p", "abc"]);
}

#[test]
fn order_labels_orders_unknown_by_name() {
    let v = order_labels(vec!["zz".to_string(), "360p".to_string(), "720p".to_string(), "240p".to_string()]);
    assert_eq!(v, vec!["720p", "240p", "360p", "zz"]);
}

#[test]
fn collect_dedupes_and_orders() {
    let quals = collect_play_qualities(vec![
        hit("480p", "u480", "m"),
        hit("1080p", "u1080", "m"),
        hit("480p", "u480b", "m"),
        hit("", "ux", "m"),
    ]);
    let labels: Vec<&str> = quals.iter().map(|q| q.label.as_str()).collect();
    assert_eq!(labels, vec!["1080p", "480p"]);
    assert_eq!(quals[0].url, "u1080");
}

#[test]
fn collect_empty_in_empty_out() {
    assert!(collect_play_qualities(Vec::new()).is_empty());
}

#[test]
fn collect_keeps_first_address_of_a_label() {
    let quals = collect_play_qualities(vec![hit("720p", "first", "m1"), hit("720p", "second", "m2")]);
    assert_eq!(quals.len(), 1);
    assert_eq!(quals[0].url, "first");
    assert_eq!(quals[0].mirror_url, "m1");
}

#[test]
fn qualities_for_mirror_needs_a_choice() {
    assert!(qualities_for_mirror(vec![hit("720p", "a", "m")]).is_none());
    assert!(qualities_for_mirror(vec![hit("720p", "a", "m"), hit("720p", "b", "m")]).is_none());
    let q = qualities_for_mirror(vec![hit("480p", "a", "m"), hit("1080p", "b", "m")]).unwrap();
    assert_eq!(q.len(), 2);
    assert_eq!(q[0].label, "1080p");
}

#[test]
fn available_qualities_take_first_mirror_with_a_choice() {
    let h = |l: &str, u: &str, m: &str| (l.to_string(), u.to_string(), m.to_string());
    let single = vec![h("720p", "a720", "m1"), h("720p", "b720", "m1")];
    let many = vec![h("480p", "c480", "m2"), h("1080p", "c1080", "m2"), h("", "x", "m2")];
    let later = vec![h("720p", "d720", "m3"), h("480p", "d480", "m3")];
    let q = available_play_qualities(vec![single.clone(), many, later]).expect("iki kalite");
    let labels: Vec<&str> = q.iter().map(|p| p.label.as_str()).collect();
    assert_eq!(labels, vec!["1080p", "480p"]);
    assert_eq!(q[0].url, "c1080");
    assert_eq!(q[0].mirror_url, "m2");
    assert_eq!(available_play_qualities(vec![single]).unwrap_err(), "tek kalite");
    assert_eq!(available_play_qualities(vec![]).unwrap_err(), "tek kalite");
}

#[test]
fn mirror_probes_and_first_qualifying() {
    assert_eq!(probe_labels(), vec!["1080p", "720p", "480p"]);
    let answers = vec![
        Ok(("1080p".to_string(), "u1080".to_string())),
        Err("yok".to_string()),
        Ok(("".to_string(), "bos".to_string())),
        Ok(("480p".to_string(), "u480".to_string())),
    ];
    let hits = mirror_hits("m1", answers);
    assert_eq!(hits, vec![hit("1080p", "u1080", "m1"), hit("480p", "u480", "m1")]);
    let q = first_qualifying(hits).expect("iki kalite");
    assert_eq!(q.len(), 2);
    assert_eq!(q[0].label, "1080p");
    assert!(first_qualifying(vec![hit("720p", "a", "m2"), hit("720p", "b", "m2")]).is_none());
    assert!(first_qualifying(vec![]).is_none());
}
