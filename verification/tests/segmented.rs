use animecix::segmented::{ChunkStep, FirstError, SegmentTransfer, download_outcome, parse_content_range_total, probe_total, segment_answer_ok, split_ranges};

#[test]
fn split_ranges_covers_exactly() {
    let r = split_ranges(100, 6);
    assert_eq!(r.len(), 6);
    assert_eq!(r[0].0, 0);
    assert_eq!(r[5].1, 99);
    for w in r.windows(2) {
        assert_eq!(w[0].1 + 1, w[1].0, "bitişik olmalı");
    }
    let total: u64 = r.iter().map(|(a, b)| b - a + 1).sum();
    assert_eq!(total, 100);
    assert_eq!(split_ranges(3, 6).len(), 3, "küçük dosya kırpılır");
    assert!(split_ranges(0, 6).is_empty());
}

#[test]
fn split_ranges_exact_values() {
    // 100 / 6 = 16 per piece, the last one takes the remaining 20 bytes.
    assert_eq!(
        split_ranges(100, 6),
        vec![(0, 15), (16, 31), (32, 47), (48, 63), (64, 79), (80, 99)]
    );
    // Zero pieces asked for still gives one range.
    assert_eq!(split_ranges(10, 0), vec![(0, 9)]);
    assert_eq!(split_ranges(3, 6), vec![(0, 0), (1, 1), (2, 2)]);
}

#[test]
fn parse_content_range_total_shapes() {
    assert_eq!(parse_content_range_total("bytes 0-0/12345"), Some(12345));
    assert_eq!(parse_content_range_total("bytes 10-20/99"), Some(99));
    assert_eq!(parse_content_range_total("bytes */99"), None);
    assert_eq!(parse_content_range_total("bozuk"), None);
}

#[test]
fn parse_content_range_total_unknown_total() {
    assert_eq!(parse_content_range_total("bytes 0-0/*"), None);
    assert_eq!(parse_content_range_total("bytes 0-0/ 77 "), Some(77));
    assert_eq!(parse_content_range_total("items 0-0/77"), None);
}

#[test]
fn probe_total_decisions() {
    assert_eq!(probe_total(Some(500), 206, Some("bytes 0-0/500")), Some(500));
    assert_eq!(probe_total(None, 206, Some("bytes 0-0/500")), Some(500));
    assert_eq!(probe_total(Some(0), 206, Some("bytes 0-0/500")), Some(500));
    // A server that ignores ranges answers 200.
    assert_eq!(probe_total(Some(500), 200, Some("bytes 0-0/500")), None);
    // Sizes that disagree are refused.
    assert_eq!(probe_total(Some(400), 206, Some("bytes 0-0/500")), None);
    assert_eq!(probe_total(Some(500), 206, None), None);
    assert_eq!(probe_total(None, 206, Some("bytes 0-0/0")), None);
}

#[test]
fn segment_answer_ok_checks_start() {
    assert!(segment_answer_ok(206, Some("bytes 16-31/100"), 16));
    assert!(!segment_answer_ok(206, Some("bytes 160-175/1000"), 16));
    assert!(!segment_answer_ok(200, Some("bytes 16-31/100"), 16));
    assert!(!segment_answer_ok(206, None, 16));
}

#[test]
fn segment_transfer_counts_reports_and_checks_length() {
    let mut t = SegmentTransfer::new(100, 199);
    assert_eq!(t.seg_len, 100);
    assert_eq!(t.on_chunk(30, 50), ChunkStep::Write { report: false });
    assert_eq!(t.on_chunk(30, 50), ChunkStep::Write { report: true });
    assert_eq!(t.since_report, 0);
    assert_eq!(t.finish(), Err("eksik segment (60/100)".to_string()));
    assert_eq!(t.on_chunk(41, 50), ChunkStep::Overflow);
    assert_eq!(t.written, 60);
    assert_eq!(t.on_chunk(40, 50), ChunkStep::Write { report: false });
    assert_eq!(t.finish(), Ok(()));
}

#[test]
fn download_outcome_keeps_first_failure() {
    let mut f = FirstError::new();
    assert_eq!(download_outcome(false, &f), Ok(()));
    assert_eq!(download_outcome(true, &f), Err("iptal".to_string()));
    f.record("ağ: kopuk".to_string());
    f.record("seek hatası".to_string());
    assert_eq!(download_outcome(true, &f), Err("ağ: kopuk".to_string()));
    let mut g = FirstError::new();
    g.record(String::new());
    assert_eq!(download_outcome(true, &g), Err("iptal".to_string()));
}
