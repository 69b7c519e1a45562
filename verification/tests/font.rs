use animecix::font::{fonts_dir, icon_font_candidates, icon_font_css, icon_label_css, mpv_font_args, FONT_FILE, FONT_STYLE};

#[test]
fn font_args_shapes() {
    let args = mpv_font_args("/tmp/x");
    let joined = args.join(" ");
    assert!(joined.contains("--osd-fonts-dir=/tmp/x"), "{joined}");
    assert!(joined.contains("--sub-fonts-dir=/tmp/x"), "{joined}");
    assert!(joined.contains(&format!("--osd-font={FONT_STYLE}")), "{joined}");
    assert!(joined.contains("--osd-font-size=38"), "{joined}");
    assert!(joined.contains(&format!("--sub-font={FONT_STYLE}")), "{joined}");
}

#[test]
fn font_names_are_set() {
    assert!(!FONT_STYLE.is_empty());
    assert!(FONT_FILE.ends_with(".ttf"));
}

#[test]
fn icon_font_places_and_styles() {
    let c = icon_font_candidates(Some("/opt/app"), Some("/home/x"));
    assert_eq!(c.len(), 9);
    assert_eq!(c[0], "/opt/app/usr/share/animecix/assets/lucide/lucide.ttf");
    assert_eq!(c[3], "/opt/app/../share/animecix/assets/lucide/lucide.ttf");
    assert_eq!(c[5], "/home/x/.local/share/animecix/assets/lucide/lucide.ttf");
    assert_eq!(c[8], "/app/share/animecix/assets/lucide/lucide.ttf");
    assert_eq!(icon_font_candidates(None, None).len(), 2);
    assert_eq!(icon_font_css("/f.ttf"), "@font-face { font-family: 'Lucide'; src: url('file:///f.ttf'); }\n");
    assert_eq!(icon_label_css(18), "label { font-family: 'Lucide'; font-size: 18px; }");
    assert_eq!(fonts_dir("/tmp"), "/tmp/animecix-fonts");
}
