use animecix::covers::{CoverQueue, MAX_COVER_WORKERS, cache_full, cover_key, cover_url, failed_keys, fixed_class, fixed_css, key_size, loaded_keys, size_class};

#[test]
fn cover_classes() {
    assert_eq!(size_class(48), "cover-thumb");
    assert_eq!(size_class(120), "cover-header");
    assert_eq!(size_class(140), "cover-shelf");
    assert_eq!(size_class(160), "cover-movie-header");
    assert_eq!(size_class(-1), "cover-movie-header");
    assert_eq!(fixed_class(48, 72), "cover-fixed-48-72");
    assert_eq!(
        fixed_css(48, 72),
        ".cover-fixed-48-72 { min-width:48px !important; max-width:48px !important; width:48px !important; min-height:72px !important; max-height:72px !important; height:72px !important; }"
    );
}

#[test]
fn cover_urls_use_small_images() {
    assert_eq!(cover_url("https://image.tmdb.org/t/p/original/a.jpg"), "https://image.tmdb.org/t/p/w185/a.jpg");
    assert_eq!(cover_url("https://image.tmdb.org/t/p/w500/b.jpg"), "https://image.tmdb.org/t/p/w185/b.jpg");
    assert_eq!(cover_url("https://image.tmdb.org/t/p/w342/c.jpg"), "https://image.tmdb.org/t/p/w185/c.jpg");
    assert_eq!(cover_url("https://x/y.png"), "https://x/y.png");
}

#[test]
fn cover_keys_round_trip() {
    let k = cover_key("https://x/a.jpg", 120, 180);
    assert_eq!(k, "https://x/a.jpg@120x180");
    assert_eq!(key_size(&k, "https://x/a.jpg"), Some((120, 180)));
    assert_eq!(key_size(&cover_key("u", -5, 0), "u"), Some((-5, 0)));
    assert_eq!(key_size("https://x/a.jpgx@1x2", "https://x/a.jpg"), None);
    assert_eq!(key_size("u@axb", "u"), None);
    assert_eq!(key_size("u@12", "u"), None);
}

#[test]
fn cover_queue_order() {
    let mut q = CoverQueue::new();
    q.enqueue("a".to_string());
    q.enqueue("b".to_string());
    q.enqueue("a".to_string());
    assert_eq!(q.urls.len(), 2);
    assert_eq!(q.next(MAX_COVER_WORKERS), None);
    assert_eq!(q.next(0), Some("a".to_string()));
    assert_eq!(q.next(11), Some("b".to_string()));
    assert_eq!(q.next(0), None);
    assert!(cache_full(41));
    assert!(!cache_full(40));
}

#[test]
fn waiting_keys_settled_by_a_load() {
    let keys = vec![
        "http://a/p.jpg@48x72".to_string(),
        "http://a/p.jpg@160x240".to_string(),
        "http://a/p.jpg.bak@1x1".to_string(),
        "http://b/q.jpg@48x72".to_string(),
        "http://a/p.jpg@bozuk".to_string(),
    ];
    assert_eq!(
        loaded_keys(&keys, "http://a/p.jpg"),
        vec![("http://a/p.jpg@48x72".to_string(), 48, 72), ("http://a/p.jpg@160x240".to_string(), 160, 240)]
    );
    // A failed load settles every key that starts with the address.
    assert_eq!(failed_keys(&keys, "http://a/p.jpg").len(), 4);
    assert!(failed_keys(&keys, "http://c/").is_empty());
}
