use animecix::settings::{
    api_key_value, assistant_models, episode_shortcuts, option_at, option_index, search_shortcuts, upscale_modes,
    version_line, wipe_warning,
};

#[test]
fn menus_select_and_read_back() {
    let ep = episode_shortcuts();
    assert_eq!(option_index(&ep, "F3"), 2);
    assert_eq!(option_at(&ep, 2), "F3");
    // An unknown value selects the first entry; an entry past the end reads as the first.
    assert_eq!(option_index(&ep, "Alt+Q"), 0);
    assert_eq!(option_at(&ep, 9), "/");
    let sc = search_shortcuts();
    assert_eq!(option_at(&sc, option_index(&sc, "F2") as u32), "F2");
    let up = upscale_modes();
    assert_eq!(option_index(&up, "hafif_keskin"), 4);
    assert_eq!(option_at(&up, 0), "off");
    let m = assistant_models();
    assert_eq!(option_at(&m, 3), "llama-3.1-8b-instant");
    assert_eq!(option_index(&m, "qwen/qwen3-32b"), 1);
}

#[test]
fn settings_texts() {
    assert_eq!(api_key_value("   "), None);
    assert_eq!(api_key_value(" gsk_x "), Some(" gsk_x ".to_string()));
    assert!(wipe_warning(true).contains("UYGULAMA DOSYALARI"));
    assert!(!wipe_warning(false).contains("UYGULAMA"));
    assert_eq!(version_line("3.1.0"), "AnimeciX Masaüstü İstemcisi  •  v3.1.0");
}
