use animecix::playback::{
    after_attempt, clock_text, episode_command, episode_keys, media_title, moved_episode, mpv_args, opening_notice,
    opens_film_page, playback_files, progress_key, resume_note, search_query, watch_attempt, AfterAttempt,
};
use animecix::catalog::Episode;
use animecix::library::watched_episode_count;

#[test]
fn names_of_a_playback() {
    assert_eq!(media_title("Frieren", 1, 7), "Frieren | S01E07");
    assert_eq!(media_title("X", 12, 105), "X | S12E105");
    assert_eq!(progress_key(42, 1, 3), "42:1:3");
    let (sock, cmd, conf) = playback_files(42, 1, 3);
    assert_eq!(sock, "/tmp/animecix-mpv-42-1-3.sock");
    assert_eq!(cmd, "/tmp/animecix-cmd-42.cmd");
    assert_eq!(conf, "/tmp/animecix-input-42.conf");
}

#[test]
fn progress_key_is_counted_back() {
    let keys = vec![progress_key(42, 1, 3), progress_key(42, 1, 4), progress_key(42, 1, 3), progress_key(7, 1, 1)];
    assert_eq!(watched_episode_count(&keys, 42), 2);
}

#[test]
fn episode_keys_bindings() {
    let k = episode_keys("/tmp/c.cmd");
    assert!(k.starts_with("S seek -30; show-text \"⏪ 30s Geri\" 2000\n"));
    assert!(k.contains("n run \"sh\" \"-c\" \"echo next > /tmp/c.cmd\"; show-text \"⏳ Sonraki Bölüm Yükleniyor...\" 4000\n"));
    assert!(k.contains("N run \"sh\" \"-c\" \"echo next > /tmp/c.cmd\""));
    assert!(k.ends_with("P run \"sh\" \"-c\" \"echo prev > /tmp/c.cmd\"; show-text \"⏳ Önceki Bölüm Yükleniyor...\" 4000\n"));
}

#[test]
fn episode_commands() {
    assert_eq!(episode_command("next\n", 3), Some(4));
    assert_eq!(episode_command(" prev ", 3), Some(2));
    assert_eq!(episode_command("prev", 1), None);
    assert_eq!(episode_command("stop", 5), None);
    let e: Episode = moved_episode(2, 9);
    assert_eq!((e.season, e.episode, e.name.as_str()), (2, 9, "Bölüm 9"));
}

#[test]
fn clock_and_notices() {
    assert_eq!(clock_text(0), "0:00");
    assert_eq!(clock_text(125), "2:05");
    assert_eq!(clock_text(3599), "59:59");
    assert_eq!(clock_text(3600), "1:00:00");
    assert_eq!(clock_text(7384), "2:03:04");
    assert_eq!(resume_note(754), " (12:34'den)");
    assert_eq!(opening_notice("X | S01E01", ""), "▶ X | S01E01 açılıyor…");
}

#[test]
fn player_arguments() {
    let a = mpv_args("T", "/s", true, "/c", Some("83.5"));
    assert_eq!(a[0], "--user-agent=mozilla");
    assert_eq!(a[1], "--force-media-title=T");
    assert_eq!(a[3], "--input-ipc-server=/s");
    assert_eq!(a[4], "--fullscreen");
    assert_eq!(a[5], "--input-conf=/c");
    assert_eq!(a[6], "--start=83.5");
    assert_eq!(a.len(), 18);
    let b = mpv_args("T", "/s", false, "/c", None);
    assert_eq!(b.len(), 16);
    assert_eq!(b[4], "--input-conf=/c");
    assert_eq!(b[15], "--ytdl-format=bestvideo[height<=1080]+bestaudio/best");
}

#[test]
fn attempts_go_on() {
    assert_eq!(watch_attempt(false, true, false, 10), (true, false));
    assert_eq!(watch_attempt(false, false, false, 25001), (false, true));
    assert_eq!(watch_attempt(false, false, true, 90000), (true, false));
    assert_eq!(watch_attempt(true, false, false, 1), (false, true));
    assert!(matches!(after_attempt(true, 0, 3), AfterAttempt::Done));
    match after_attempt(false, 0, 3) {
        AfterAttempt::TryNext(m) => assert_eq!(m, "Kaynak açılamadı, diğer kaynağa geçiliyor…"),
        other => panic!("{other:?}"),
    }
    match after_attempt(false, 2, 3) {
        AfterAttempt::GiveUp(m) => assert_eq!(m, "Bölüm hiçbir kaynakta açılamadı."),
        other => panic!("{other:?}"),
    }
}

#[test]
fn film_page_and_search_query() {
    let eps = vec![Episode { episode: 1, season: 1, name: "a".to_string() }];
    assert!(opens_film_page(&Some("movie".to_string()), &eps));
    assert!(!opens_film_page(&Some("anime".to_string()), &eps));
    assert!(opens_film_page(&None, &Vec::new()));
    assert_eq!(search_query("  naruto \n"), Some("naruto".to_string()));
    assert_eq!(search_query(" \t "), None);
}
