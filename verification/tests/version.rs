use animecix::version::{check_image, needs_update, release_asset, update_offer, update_question, Release, ReleaseAsset, ASSET_NAME};

fn asset(name: &str, url: &str) -> ReleaseAsset {
    ReleaseAsset { name: name.to_string(), browser_download_url: url.to_string() }
}

#[test]
fn version_compare() {
    assert!(needs_update("3.0.0", "3.1.0"));
    assert!(needs_update("3.0.0", "4.0.0"));
    assert!(needs_update("3.0.9", "3.1.0"));
    assert!(!needs_update("3.1.0", "3.0.0"));
    assert!(!needs_update("3.0.0", "3.0.0"));
    assert!(!needs_update("v3.0.0", "3.0.0"));
    assert!(needs_update("3.0.0", "v3.0.1"));
}

#[test]
fn version_compare_uneven_and_odd_parts() {
    // Missing parts count as zero.
    assert!(!needs_update("3.1", "3.1.0"));
    assert!(needs_update("3.1", "3.1.1"));
    // Parts that are not numbers count as zero.
    assert!(!needs_update("3.x.0", "3.0.0"));
    assert!(needs_update("3.x.0", "3.0.1"));
    // Numbers compare as numbers, not text.
    assert!(needs_update("3.9.0", "3.10.0"));
}

#[test]
fn version_order_is_strict() {
    // Never both ways, never against itself.
    for (a, b) in [("1.2.3", "1.3"), ("v2", "2.0.1"), ("0.0.0", "0")] {
        assert!(!(needs_update(a, b) && needs_update(b, a)));
        assert!(!needs_update(a, a));
    }
}

#[test]
fn parse_asset() {
    let rel = Release {
        tag_name: "v3.1.0".to_string(),
        assets: vec![asset("other.txt", "http://x/other"), asset(ASSET_NAME, "http://x/AnimeciX-x86_64.AppImage")],
    };
    let (tag, url) = release_asset(&rel).unwrap();
    assert_eq!(tag, "v3.1.0");
    assert_eq!(url, "http://x/AnimeciX-x86_64.AppImage");
    let empty = Release { tag_name: "v1".to_string(), assets: vec![] };
    assert!(release_asset(&empty).is_none());
}

#[test]
fn release_asset_takes_first_match() {
    let rel = Release {
        tag_name: "v9".to_string(),
        assets: vec![asset(ASSET_NAME, "http://a"), asset(ASSET_NAME, "http://b")],
    };
    assert_eq!(release_asset(&rel), Some(("v9".to_string(), "http://a".to_string())));
}

#[test]
fn check_image_accepts_only_elf() {
    assert!(check_image(b"\x7fELFfakeappimage").is_ok());
    assert_eq!(check_image(b"not an appimage"), Err("İndirilen dosya geçerli bir AppImage değil".to_string()));
    assert!(check_image(b"\x7fEL").is_err());
    assert!(check_image(b"").is_err());
}

#[test]
fn update_offer_decisions() {
    let rel = Release { tag_name: "v3.1.0".to_string(), assets: vec![asset(ASSET_NAME, "http://x/img")] };
    assert_eq!(
        update_offer("3.0.0", &rel),
        Ok(Some(("v3.1.0".to_string(), "http://x/img".to_string())))
    );
    assert_eq!(update_offer("3.1.0", &rel), Ok(None));
    let bare = Release { tag_name: "v4".to_string(), assets: vec![asset("other", "u")] };
    assert_eq!(update_offer("3.1.0", &bare), Err("asset bulunamadı".to_string()));
    assert_eq!(
        update_question("vv3.2.0"),
        "AnimeciX v3.2.0 yayınlandı. İndirip uygulamayı güncelleyelim mi?"
    );
}

#[test]
fn replace_rejects_non_elf() {
    assert!(check_image(b"not an appimage").is_err());
    assert!(check_image(b"\x7fELFfakeappimage").is_ok());
}
