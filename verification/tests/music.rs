use animecix::music::{ass_text, ass_time, music_ass, music_keybind_line, pick_song_url, MusicData};

fn music(spotify: Option<&str>, apple: Option<&str>, link: Option<&str>) -> MusicData {
    MusicData {
        title: "T".to_string(),
        artist: "A".to_string(),
        spotify_url: spotify.map(str::to_string),
        apple_music_url: apple.map(str::to_string),
        song_link: link.map(str::to_string),
    }
}

fn s(v: Vec<char>) -> String {
    v.into_iter().collect()
}

#[test]
fn pick_song_url_priority_and_fallback() {
    let op = music(Some("https://open.spotify.com/track/x"), Some("https://music.apple.com/a"), Some("https://lis.tn/y"));
    let ed = music(Some("https://open.spotify.com/track/e"), None, None);
    assert_eq!(pick_song_url(Some(&op), Some(&ed)).as_deref(), Some("https://open.spotify.com/track/x"), "spotify önce");
    let op2 = music(None, Some("https://music.apple.com/a"), Some("https://lis.tn/y"));
    assert_eq!(pick_song_url(Some(&op2), None).as_deref(), Some("https://music.apple.com/a"), "apple ikinci");
    let op3 = music(None, None, Some("https://lis.tn/y"));
    assert_eq!(pick_song_url(Some(&op3), None).as_deref(), Some("https://lis.tn/y"), "kısa link son");
    assert_eq!(pick_song_url(None, Some(&ed)).as_deref(), Some("https://open.spotify.com/track/e"), "açılış yoksa kapanış");
    assert!(pick_song_url(None, None).is_none());
}

#[test]
fn pick_song_url_rejects_bad() {
    for bad in [
        "http://open.spotify.com/track/x",
        "https://evil.com/track/x",
        "https://open.spotify.com/track/x y",
        "https://open.spotify.com/track/x'y",
        "",
    ] {
        let m = music(Some(bad), None, None);
        assert!(pick_song_url(Some(&m), None).is_none(), "elenmeli: {bad}");
    }
}

#[test]
fn pick_song_url_skips_bad_opening_link_for_next_field() {
    let op = music(Some("https://evil.com/x"), Some("https://music.apple.com/b"), None);
    assert_eq!(pick_song_url(Some(&op), None).as_deref(), Some("https://music.apple.com/b"));
    let bad_op = music(Some("ftp://lis.tn/z"), None, None);
    let ed = music(None, None, Some("https://lis.tn/q"));
    assert_eq!(pick_song_url(Some(&bad_op), Some(&ed)).as_deref(), Some("https://lis.tn/q"));
}

#[test]
fn music_keybind_line_shape() {
    let l = music_keybind_line("https://open.spotify.com/track/x");
    assert!(l.starts_with("M run \"/bin/sh\" \"-c\""), "satır: {l}");
    assert!(l.contains("xdg-open 'https://open.spotify.com/track/x'"), "satır: {l}");
    assert!(l.contains("gio open"), "yedek: {l}");
    assert!(l.contains("set osd-align-x right"), "sağ-üst: {l}");
    assert!(l.contains("set osd-align-y top"), "sağ-üst: {l}");
    assert!(l.contains("show-text"), "onay: {l}");
    assert!(l.contains("tarayıcıda açıldı"), "onay metni: {l}");
    assert!(l.contains("3000"), "süre: {l}");
}

#[test]
fn music_keybind_line_escapes_quote() {
    let l = music_keybind_line("https://lis.tn/a'b");
    assert!(l.contains("xdg-open 'https://lis.tn/a%27b'"), "{l}");
    assert!(!l.contains("a'b"), "{l}");
}

#[test]
fn ass_time_shapes() {
    // Times are given in hundredths of a second.
    assert_eq!(s(ass_time(0)), "0:00:00.00");
    assert_eq!(s(ass_time(4300)), "0:00:43.00");
    assert_eq!(s(ass_time(13300)), "0:02:13.00");
    assert_eq!(s(ass_time(135200)), "0:22:32.00");
}

#[test]
fn ass_time_hours_and_hundredths() {
    assert_eq!(s(ass_time(360000 + 61 * 100 + 7)), "1:01:01.07");
}

#[test]
fn ass_text_strips_braces_and_breaks() {
    let v: Vec<char> = "a{b}\nc\rd".chars().collect();
    assert_eq!(s(ass_text(&v)), "ab c d");
}

#[test]
fn music_ass_no_double_prefix() {
    let a = music_ass(Some((4300, 13300, "🎵 Açılış: Your Gaze — Tatsuya Kitani ▶")), None, "Montserrat SemiBold", true);
    assert_eq!(a.matches("Açılış:").count(), 1, "ön-ek teklenmeli: {a}");
    assert!(a.contains("(Shift+M: tarayıcıda aç)"), "ipucu");
}

#[test]
fn music_ass_shapes() {
    let a = music_ass(Some((4300, 13300, "T — A ▶")), None, "Montserrat SemiBold", true);
    assert!(a.contains("{\\an9}"), "sağ üst");
    assert!(a.contains("0:00:43.00,0:02:13.00"), "zaman: {a}");
    assert!(a.contains("Fontname") && a.contains("Montserrat SemiBold"), "font");
    assert!(a.contains("(Shift+M: tarayıcıda aç)"), "ipucu");
    let b = music_ass(Some((4300, 13300, "T {bozuk} — A")), None, "F", false);
    assert!(!b.contains("{bozuk}"), "başlık süslüsü temizlenmeli: {b}");
    assert!(!b.contains("tarayıcıda aç)"), "ipucu kapalı");
    assert!(music_ass(None, None, "F", true).is_empty(), "şarkısız boş");
}

#[test]
fn music_ass_ending_only() {
    let a = music_ass(None, Some((120000, 129000, "Son — B")), "F", false);
    assert!(a.contains("Kapanış: Son — B"), "{a}");
    assert!(a.contains("0:20:00.00,0:21:30.00"), "{a}");
    assert!(!a.contains("Açılış"), "{a}");
}
