use animecix::skip::{
    input_conf, mpv_safe_text, prompt_ed, prompt_op, show_text_cmd, skip_osd_cmds, CachedSkip, SkipPlan, SkipTimes,
};

#[test]
fn skip_osd_cmds_pin_bottom_left() {
    let cmds = skip_osd_cmds("⏩ İntro", 4000);
    assert_eq!(cmds.len(), 5, "4 hiza + 1 metin");
    assert!(cmds[0].contains("osd-align-x") && cmds[0].contains("left"));
    assert!(cmds[1].contains("osd-align-y") && cmds[1].contains("bottom"));
    assert!(cmds[4].contains("show-text") && cmds[4].contains("4000"));
}

#[test]
fn input_conf_shapes() {
    // Times are given in tenths of a second: 43.0 s and 133.0 s.
    let t = SkipTimes { op_start: Some(430), op_end: Some(1330), ed_start: None, ed_end: None };
    let c = input_conf(&t, "resmi kaynak");
    assert!(c.contains("s seek 133.0 absolute"), "tuş: {c}");
    assert!(c.contains("resmi kaynak: 00:43 → 02:13"), "kaynak+aralık: {c}");
    assert!(c.contains("Outro zamanı bulunamadı"), "eksik çift: {c}");
    let empty = input_conf(&SkipTimes::default(), "x");
    assert!(
        empty.contains("İntro zamanı bulunamadı") && empty.contains("Outro zamanı bulunamadı"),
        "boş conf dürüst olmalı: {empty}"
    );
    assert!(empty.contains("S seek -30"), "geri tuşu korunmalı");
}

#[test]
fn input_conf_outro_with_fraction() {
    let t = SkipTimes { op_start: None, op_end: Some(900), ed_start: Some(13255), ed_end: Some(14105) };
    let c = input_conf(&t, "AniSkip");
    // Only a start and an end together make a jump.
    assert!(c.contains("İntro zamanı bulunamadı"), "{c}");
    assert!(c.contains("e seek 1410.5 absolute"), "{c}");
    assert!(c.contains("AniSkip: 22:05 → 23:30"), "{c}");
    assert!(c.ends_with("End ignore\n"), "{c}");
}

#[test]
fn mpv_safe_text_neutralizes_json_breakers() {
    let out = mpv_safe_text("🎵 \"Quoted\" \\ Title — A");
    assert!(!out.contains('"'), "tırnak kalmamalı: {out}");
    assert!(!out.contains('\\'), "tersbölü kalmamalı: {out}");
    assert!(out.contains("Quoted") && out.contains("Title"), "içerik korunmalı: {out}");
}

#[test]
fn mpv_safe_text_exact_replacements() {
    assert_eq!(mpv_safe_text("a\"b\\c"), "a'b/c");
}

#[test]
fn show_text_and_prompts() {
    let cmd = show_text_cmd("a \"b\" c", 8000);
    assert!(cmd.contains("a 'b' c") && cmd.contains("8000"), "cmd: {cmd}");
    let v: serde_json::Value = serde_json::from_str(cmd.trim()).expect("IPC JSON geçerli olmalı");
    assert_eq!(v["command"][0], "show-text");
    assert!(prompt_op(None).contains("İntro Başladı"));
    assert!(prompt_op(Some("🎵 X — Y")).contains("🎵 X — Y"), "şarkı eklenmeli");
    assert!(prompt_ed(None).contains("Outro Başladı"));
    assert!(prompt_ed(Some("🎵 Z")).contains("🎵 Z"));
}

#[test]
fn skip_plan_cache_round_trip() {
    let plan = SkipPlan {
        times: SkipTimes { op_start: Some(10), op_end: Some(900), ed_start: None, ed_end: None },
        music_op: Some("🎵 A — B".to_string()),
        music_ed: None,
        song_url: Some("https://lis.tn/x".to_string()),
        source: "AniSkip".to_string(),
    };
    let c: CachedSkip = plan.cached();
    let back = SkipPlan::from_cached(&c, "önbellek");
    assert_eq!(back.times, plan.times);
    assert_eq!(back.music_op, plan.music_op);
    assert_eq!(back.song_url, plan.song_url);
    assert_eq!(back.source, "önbellek");
    assert!(!back.is_empty());
    assert!(SkipPlan::default().is_empty());
}
