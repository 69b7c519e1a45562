use animecix::system::{DepStatus, GotoPage, dependency_badge, dependency_list, dependency_subtitle, desktop_entry, desktop_entry_paths, desktop_exec_target, distro_info, filter_args, goto_page, goto_values, is_appimage, package_manager, parse_pids, uninstall_paths};

fn args(v: &[&str]) -> Vec<String> {
    v.iter().map(|s| s.to_string()).collect()
}

#[test]
fn desktop_exec_target_uses_appimage() {
    assert_eq!(desktop_exec_target("/home/x", Some("/opt/AnimeciX-x86_64.AppImage")), "/opt/AnimeciX-x86_64.AppImage");
}

#[test]
fn desktop_exec_target_falls_back_to_local_bin() {
    assert_eq!(desktop_exec_target("/home/x", None), "/home/x/.local/bin/animecix");
    assert_eq!(desktop_exec_target("/home/x", Some("  ")), "/home/x/.local/bin/animecix");
    assert!(is_appimage(Some("/a.AppImage")));
    assert!(!is_appimage(Some(" \t")));
    assert!(!is_appimage(None));
}

#[test]
fn desktop_entry_and_paths() {
    let e = desktop_entry("/opt/A.AppImage");
    assert!(e.starts_with("[Desktop Entry]\nType=Application\nName=AnimeciX\n"));
    assert!(e.contains("Exec=\"/opt/A.AppImage\"\n"));
    assert!(e.ends_with("X-AppImage-Version=0.1.0\n"));
    let p = desktop_entry_paths("/home/x");
    assert_eq!(p[0], "/home/x/.local/share/applications/tr.com.animecix.desktop");
    assert_eq!(p[3], "/usr/share/applications/animecix.desktop");
    assert_eq!(uninstall_paths("").len(), 0);
    let u = uninstall_paths("/h");
    assert_eq!(u.len(), 7);
    assert_eq!(u[0], "/h/.local/bin/animecix");
}

#[test]
fn distro_and_package_manager() {
    let deb = Some("NAME=\"Ubuntu\"\nID_LIKE=Debian");
    assert_eq!(package_manager(deb), ("APT", "sudo apt update && sudo apt install -y"));
    assert_eq!(distro_info(deb).0, "Ubuntu / Debian / Mint");
    assert_eq!(package_manager(Some("ID=FEDORA")), ("DNF", "sudo dnf install -y"));
    assert_eq!(distro_info(Some("ID=manjaro")), ("Arch / Manjaro", "sudo pacman -S mpv"));
    assert_eq!(package_manager(Some("ID=opensuse-tumbleweed")).0, "Zypper");
    assert_eq!(package_manager(None), ("Paket Yöneticisi", "sudo apt install -y"));
    assert_eq!(distro_info(Some("ID=gentoo")).0, "Linux");
}

#[test]
fn dependency_list_commands() {
    let d = dependency_list(Some("ID=fedora"), true, false, true);
    assert_eq!(d.len(), 3);
    assert!(d[0].installed && !d[1].installed && d[2].installed);
    assert_eq!(d[0].install_cmd.as_deref(), Some("sudo dnf install mpv   # (Fedora)"));
    assert_eq!(d[1].install_cmd.as_deref(), Some("sudo dnf install -y curl"));
    assert_eq!(d[2].install_cmd.as_deref(), Some("sudo dnf install -y xdg-utils"));
    assert_eq!(d[2].name, "Masaüstü Bağlantı Araçları (xdg-utils)");
}

#[test]
fn goto_arguments() {
    let a = args(&["animecix", "--goto", "home", "-v", "--goto=marathon", "x", "--goto"]);
    assert_eq!(filter_args(&a), args(&["animecix", "-v", "x"]));
    assert_eq!(goto_values(&a), args(&["home"]));
    assert_eq!(goto_values(&args(&["p", "--goto", "--goto", "history"])), args(&["--goto"]));
    assert!(filter_args(&Vec::new()).is_empty());
    assert_eq!(goto_page("favorites"), Some(GotoPage::Favorites));
    assert_eq!(goto_page("episodes"), Some(GotoPage::Episodes));
    assert_eq!(goto_page("Home"), None);
}

#[test]
fn pids_from_pgrep_output() {
    assert_eq!(parse_pids("123\n 456 \r\nabc\n-7\n99999999999\n"), vec![123, 456, -7]);
    assert_eq!(parse_pids(""), Vec::<i32>::new());
    assert_eq!(parse_pids("42"), vec![42]);
}

#[test]
fn dependency_rows() {
    let missing = DepStatus { name: "mpv", desc: "Video oynatıcı", installed: false, install_cmd: Some("sudo pacman -S mpv".to_string()) };
    assert_eq!(dependency_subtitle(&missing), "Video oynatıcı • Kurulum: sudo pacman -S mpv");
    let ok = DepStatus { name: "curl", desc: "İndirme aracı", installed: true, install_cmd: Some("x".to_string()) };
    assert_eq!(dependency_subtitle(&ok), "İndirme aracı");
    assert!(dependency_badge(true).contains("Yüklü"));
    assert!(dependency_badge(false).contains("Eksik"));
}
