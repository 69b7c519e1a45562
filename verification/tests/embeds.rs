use animecix::embeds::{
    capitalize_host, classify_embed, embed_from_final_url, extract_host, host_part, pick_tau_url, sibnet_mp4_url,
    streamtape_url, tau_api_url, EmbedKind,
};

#[test]
fn extract_host_short_names() {
    assert_eq!(extract_host("https://tau-video.xyz/embed/abc"), "tau-video");
    assert_eq!(extract_host("https://video.sibnet.ru/shell.php?videoid=1"), "video");
    assert_eq!(extract_host("streamtape.com/e/x"), "streamtape");
    assert_eq!(extract_host(""), "");
    assert_eq!(host_part("https://a.b.c:8080/x/y"), "a.b.c:8080");
}

#[test]
fn capitalize_host_names() {
    assert_eq!(capitalize_host("tau-video"), "Tau Video");
    assert_eq!(capitalize_host("tau"), "Tau Video");
    assert_eq!(capitalize_host("sibnet"), "Sibnet");
    assert_eq!(capitalize_host("streamtape"), "Streamtape");
    assert_eq!(capitalize_host("mail"), "Mail");
    assert_eq!(capitalize_host("ßite"), "SSite");
    assert_eq!(capitalize_host(""), "");
}

#[test]
fn classify_embed_routes() {
    let id = "0123456789abcdef01234567";
    match classify_embed(&format!("https://tau-video.xyz/embed/{id}?vid=77")) {
        EmbedKind::Tau { embed_id, vid } => {
            assert_eq!(embed_id, id);
            assert_eq!(vid, "77");
        }
        other => panic!("{other:?}"),
    }
    match classify_embed(&format!("https://tau-video.xyz/embed/{id}??")) {
        EmbedKind::Tau { embed_id, vid } => {
            assert_eq!(embed_id, id);
            assert_eq!(vid, "");
        }
        other => panic!("{other:?}"),
    }
    // A short tau id falls through to the other checks.
    match classify_embed("https://tau-video.xyz/embed/short") {
        EmbedKind::Unsupported(m) => assert_eq!(m, "tau-video.xyz kaynağı şu an çözülemiyor"),
        other => panic!("{other:?}"),
    }
    assert!(matches!(classify_embed("https://video.sibnet.ru/shell.php?videoid=5"), EmbedKind::Sibnet));
    assert!(matches!(classify_embed("https://streamtape.com/e/abc"), EmbedKind::Streamtape));
    match classify_embed("https://ok.ru/videoembed/1") {
        EmbedKind::Unsupported(m) => assert_eq!(m, "ok.ru kaynağı şu an çözülemiyor"),
        other => panic!("{other:?}"),
    }
}

#[test]
fn sibnet_page_parsing() {
    let html = "<video src=\"/v/abc123/777.mp4?x\"></video>";
    assert_eq!(sibnet_mp4_url(html), Ok("https://video.sibnet.ru/v/abc123/777.mp4".to_string()));
    assert_eq!(sibnet_mp4_url("no video"), Err("sibnet mp4 bulunamadı".to_string()));
    assert_eq!(sibnet_mp4_url("/v/ but no file"), Err("sibnet mp4 bulunamadı".to_string()));
}

#[test]
fn streamtape_page_parsing() {
    let html = "x('/get_video?id=ABCDEFGHIJKLMNOPQRSTU&expires=1')";
    assert_eq!(
        streamtape_url(html),
        Ok("https://streamtape.com/get_video?id=ABCDEFGHIJKLMNOPQRSTU&expires=1".to_string())
    );
    assert_eq!(streamtape_url("{\"nofile\"} get_video?id=1234567890123456789012345"), Err("streamtape videosu kaldırılmış".to_string()));
    assert_eq!(streamtape_url("get_video?id=short'"), Err("streamtape çözülemedi".to_string()));
    assert_eq!(streamtape_url("nothing"), Err("streamtape çözülemedi".to_string()));
}

#[test]
fn tau_request_and_pick() {
    assert_eq!(tau_api_url("abc", ""), "https://tau-video.xyz/api/video/abc");
    assert_eq!(tau_api_url("abc", "9"), "https://tau-video.xyz/api/video/abc?vid=9");
    let e = |l: Option<&str>, u: Option<&str>| (l.map(str::to_string), u.map(str::to_string));
    let urls = vec![e(Some("720p"), Some("u720")), e(Some("1080p"), None), e(Some("1080p"), Some("u1080"))];
    assert_eq!(pick_tau_url(&urls), Ok("u1080".to_string()));
    let urls2 = vec![e(None, None), e(Some("480p"), Some("u480")), e(Some("720p"), Some("u720"))];
    assert_eq!(pick_tau_url(&urls2), Ok("u480".to_string()));
    assert_eq!(pick_tau_url(&vec![e(Some("1080p"), None)]), Err("tau-video url bulunamadı".to_string()));
}

#[test]
fn embed_from_final_url_shapes() {
    let id = "0123456789abcdef0123456789";
    assert_eq!(
        embed_from_final_url(&format!("https://x/embed/{id}?vid=42")),
        Ok((id[..24].to_string(), "42".to_string()))
    );
    let tail = "zzzzzzzzzzzzzzzzzzzzzzzz";
    assert_eq!(
        embed_from_final_url(&format!("https://tau-video.xyz/embed/{tail}?vid=5")),
        Ok((tail.to_string(), "5".to_string()))
    );
    assert_eq!(
        embed_from_final_url("https://animecix.tv/nothing"),
        Err("embed bulunamadı: https://animecix.tv/nothing".to_string())
    );
}
