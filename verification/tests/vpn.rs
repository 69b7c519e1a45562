use animecix::vpn::{PROXY_PORT, STOP_CHECKS, StopAction, StopPhase, bin_candidates, config_candidates, data_dir, join_path_str, log_path, setup_instructions, start_log_line, start_timeout_message, start_wait_step, stop_step};

#[test]
fn default_candidate_paths_cover_known_locations() {
    let bins = bin_candidates("/home/x");
    assert_eq!(bins[0], "/home/x/.local/share/singbox/sing-box");
    assert!(bins.iter().any(|b| b == "/usr/bin/sing-box"));
    let cfgs = config_candidates("/home/x", &bins[0]);
    assert_eq!(cfgs[0], "/home/x/.local/share/singbox/config.json");
    assert!(cfgs.contains(&"/home/x/vpn-config.json".to_string()));
}

#[test]
fn config_candidates_start_beside_the_binary() {
    let cfgs = config_candidates("/home/y", "/opt/sb/sing-box");
    assert_eq!(
        cfgs,
        vec![
            "/opt/sb/config.json".to_string(),
            "/home/y/.local/share/singbox/config.json".to_string(),
            "/home/y/vpn-config.json".to_string(),
            "/home/y/sing-box-config.json".to_string(),
        ]
    );
    // A bare file name has the empty path as parent.
    assert_eq!(config_candidates("/h", "sing-box")[0], "config.json");
    // The root has no parent.
    assert_eq!(config_candidates("/h", "/").len(), 3);
}

#[test]
fn setup_instructions_mention_download_and_config_steps() {
    let s = setup_instructions("/home/x");
    assert!(s.contains("sing-box"), "indirme adımı olmalı");
    assert!(s.contains("config.json"), "config kaydetme adımı olmalı");
    assert!(s.contains("ProtonVPN"), "Proton adımı olmalı");
    assert!(s.contains("/home/x/.local/share/singbox/config.json"));
}

#[test]
fn log_path_prefers_xdg_data_home() {
    assert_eq!(log_path(Some("/data"), Some("/home/x")), "/data/animecix/singbox.log");
    assert_eq!(log_path(Some(""), Some("/home/x")), "/home/x/.local/share/animecix/singbox.log");
    assert_eq!(log_path(None, None), "/tmp/singbox.log");
    assert_eq!(data_dir(Some("/d/"), None), "/d/animecix");
}

#[test]
fn join_path_str_like_pathbuf_push() {
    assert_eq!(join_path_str("/a", "b"), "/a/b");
    assert_eq!(join_path_str("/a/", "b"), "/a/b");
    assert_eq!(join_path_str("/a", "/b"), "/b");
    assert_eq!(join_path_str("", "b"), "b");
    assert_eq!(PROXY_PORT, 10808);
}

#[test]
fn proxy_start_wait_and_messages() {
    assert_eq!(start_wait_step(0, true), Some(true));
    assert_eq!(start_wait_step(0, false), None);
    assert_eq!(start_wait_step(22, false), None);
    assert_eq!(start_wait_step(23, false), Some(false));
    assert_eq!(
        start_timeout_message("/x/singbox.log"),
        "süreç başladı ama 10808. port 6 sn içinde açılmadı (config hatalı olabilir).\nLog: /x/singbox.log"
    );
    assert_eq!(start_log_line("2024-01-01 10:00:00", "/b/sing-box", "/c.json"), "\n[2024-01-01 10:00:00] başlatılıyor: /b/sing-box -c /c.json");
}

#[test]
fn proxy_stop_escalates_then_ends() {
    assert_eq!(stop_step(StopPhase::AfterTerm(0), false), StopAction::Finish(true));
    assert_eq!(stop_step(StopPhase::AfterTerm(0), true), StopAction::Wait(StopPhase::AfterTerm(1)));
    assert_eq!(stop_step(StopPhase::AfterTerm(STOP_CHECKS - 1), true), StopAction::Kill);
    assert_eq!(stop_step(StopPhase::AfterKill(STOP_CHECKS - 1), true), StopAction::Finish(true));
    // Walking the loop with the port never closing ends after both rounds.
    let mut phase = StopPhase::AfterTerm(0);
    let mut steps = 0;
    loop {
        steps += 1;
        match stop_step(phase, true) {
            StopAction::Wait(p) => phase = p,
            StopAction::Kill => phase = StopPhase::AfterKill(0),
            StopAction::Finish(b) => {
                assert!(b);
                break;
            }
        }
    }
    assert_eq!(steps, 2 * STOP_CHECKS);
}
