use animecix::cache::{
    after_reply, answer_file_name, answer_step, lookup, Lookup, Reply, cache_record, cover_file_name, cover_step, is_fresh, parse_cache_record, CacheStep,
    API_TTL_SECS, CACHE_VERSION, IMG_TTL_SECS,
};

fn fnv(s: &str) -> u64 {
    let mut h: u64 = 0xcbf29ce484222325;
    for b in s.bytes() {
        h ^= b as u64;
        h = h.wrapping_mul(0x100000001b3);
    }
    h
}

#[test]
fn answer_file_names_are_safe() {
    assert_eq!(answer_file_name("ep:42:1"), "ep_42_1.json");
    assert_eq!(answer_file_name("search:çay bahçe"), "search_çay_bahçe.json");
    assert_eq!(answer_file_name("a-b_c/../x"), "a-b_c____x.json");
}

#[test]
fn cover_file_names() {
    let u = "https://img.example.com/p/abc.webp?w=300";
    assert_eq!(cover_file_name(u), format!("{:x}.webp", fnv(u)));
    let u2 = "https://img.example.com/p/abc.toolong";
    assert_eq!(cover_file_name(u2), format!("{:x}.bin", fnv(u2)));
    let u3 = "https://img.example.com/p/noext";
    assert_eq!(cover_file_name(u3), format!("{:x}.bin", fnv(u3)));
    // An empty last piece is a (empty) extension of letters and digits.
    assert_eq!(cover_file_name(""), format!("{:x}.", fnv("")));
    assert_eq!(cover_file_name("x.JPG"), format!("{:x}.JPG", fnv("x.JPG")));
}

#[test]
fn cache_record_round_trip() {
    let r = cache_record(1700000000, "{\"a\":[1,2]}\nmore");
    assert_eq!(r, "1700000000\n{\"a\":[1,2]}\nmore");
    assert_eq!(parse_cache_record(&r), Some((1700000000, "{\"a\":[1,2]}\nmore".to_string())));
    assert_eq!(parse_cache_record(" 12 \nx"), Some((12, "x".to_string())));
    assert_eq!(parse_cache_record("12"), None);
    assert_eq!(parse_cache_record("abc\nx"), None);
    assert_eq!(parse_cache_record("-1\nx"), None);
}

#[test]
fn freshness_and_steps() {
    assert!(is_fresh(100, 50, 51));
    assert!(!is_fresh(100, 50, 50));
    assert!(is_fresh(10, 50, 1), "a future time counts as age 0");
    assert_eq!(answer_step(1000, 100, Some(950), Some(999)), CacheStep::Memory);
    assert_eq!(answer_step(1000, 100, Some(800), Some(950)), CacheStep::Disk);
    assert_eq!(answer_step(1000, 100, None, Some(800)), CacheStep::Revalidate);
    assert_eq!(answer_step(1000, 100, Some(800), None), CacheStep::Fetch);
    assert_eq!(cover_step(1000, 100, None, Some(800)), CacheStep::Fetch);
    assert_eq!(cover_step(1000, 100, None, Some(990)), CacheStep::Disk);
    assert_eq!(API_TTL_SECS, 3 * 3600);
    assert_eq!(IMG_TTL_SECS, 7 * 24 * 3600);
    assert_eq!(CACHE_VERSION, "2");
}

#[test]
fn stale_answer_is_served_at_once() {
    let m = |t: u64, b: &str| Some((t, b.to_string()));
    assert!(matches!(lookup(1000, 100, m(950, "bellek"), m(999, "disk")), Lookup::Memory(b) if b == "bellek"));
    assert!(matches!(lookup(1000, 100, m(800, "bellek"), m(950, "disk")), Lookup::Disk(950, b) if b == "disk"));
    assert!(matches!(lookup(1000, 100, None, m(800, "eski")), Lookup::Stale(b) if b == "eski"));
    assert!(matches!(lookup(1000, 100, m(800, "bellek"), None), Lookup::Fetch));
}

#[test]
fn reply_fills_cache_or_keeps_stale_copy() {
    let Reply { answer, memory, disk } = after_reply(7, Ok("yeni".to_string()), Some("eski".to_string()));
    assert_eq!(answer, Ok("yeni".to_string()));
    assert_eq!(memory, Some((7, "yeni".to_string())));
    assert_eq!(disk, Some((7, "yeni".to_string())));
    let Reply { answer, memory, disk } = after_reply(7, Err("ağ yok".to_string()), Some("eski".to_string()));
    assert_eq!(answer, Ok("eski".to_string()));
    assert_eq!(memory, Some((7, "eski".to_string())));
    assert_eq!(disk, None);
    let Reply { answer, memory, disk } = after_reply(7, Err("ağ yok".to_string()), None);
    assert_eq!(answer, Err("ağ yok".to_string()));
    assert_eq!(memory, None);
    assert_eq!(disk, None);
}
