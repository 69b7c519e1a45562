//! The application's place in the desktop: how it was started, the
//! launcher entry it installs, the packages it needs, and the command line
//! it is given.

use vstd::prelude::*;
use crate::catalog::{lowercase, to_lowercase};
use crate::text::{
    chars_of, contains_sub, extend_str, find_sub_in, owned, parse_i32_in, parse_i32_spec, starts_with, str_eq,
    string_from, text_lines, lines_spec, trim, trim_bounds,
};

verus! {

/// Whether a value is blank (only whitespace).
pub open spec fn blank(s: Seq<char>) -> bool {
    trim(s).len() == 0
}

fn is_blank(s: &str) -> (r: bool)
    ensures
        r == blank(s@),
{
    let v = chars_of(s);
    let (a, b) = trim_bounds(&v, 0, v.len());
    assert(v@.subrange(0, v@.len() as int) =~= v@);
    a == b
}

/// Whether the application runs as an AppImage: the `APPIMAGE` value set
/// by the AppImage runtime is present and not blank.
pub fn is_appimage(appimage: Option<&str>) -> (r: bool)
    ensures
        r == (appimage matches Some(v) && !blank(v@)),
{
    match appimage {
        Some(v) => !is_blank(v),
        None => false,
    }
}

/// What the launcher starts: the AppImage itself when running as one (so
/// that it can update itself), else the copy in `~/.local/bin`.
pub open spec fn exec_target_spec(home: Seq<char>, appimage: Option<Seq<char>>) -> Seq<char> {
    match appimage {
        Some(v) => if !blank(v) { v } else { home + "/.local/bin/animecix"@ },
        None => home + "/.local/bin/animecix"@,
    }
}

/// The program the desktop launcher runs, given `$HOME` and `$APPIMAGE`.
pub fn desktop_exec_target(home: &str, appimage: Option<&str>) -> (r: String)
    ensures
        r@ == exec_target_spec(home@, match appimage { Some(v) => Some(v@), None => None }),
{
    if let Some(v) = appimage {
        if !is_blank(v) {
            return owned(v);
        }
    }
    let mut out = chars_of(home);
    extend_str(&mut out, "/.local/bin/animecix");
    string_from(&out)
}

/// The launcher entry for the program `exec_target`.
pub open spec fn desktop_entry_spec(exec_target: Seq<char>) -> Seq<char> {
    "[Desktop Entry]\nType=Application\nName=AnimeciX\nComment=Türkçe Anime ve Film İzleme İstemcisi\nExec=\""@
        + exec_target
        + "\"\nIcon=tr.com.animecix\nTerminal=false\nCategories=AudioVideo;Video;Network;\nX-AppImage-Version=0.1.0\n"@
}

/// The text of the launcher entry.
pub fn desktop_entry(exec_target: &str) -> (r: String)
    ensures
        r@ == desktop_entry_spec(exec_target@),
{
    let mut out = chars_of(
        "[Desktop Entry]\nType=Application\nName=AnimeciX\nComment=Türkçe Anime ve Film İzleme İstemcisi\nExec=\"",
    );
    extend_str(&mut out, exec_target);
    extend_str(
        &mut out,
        "\"\nIcon=tr.com.animecix\nTerminal=false\nCategories=AudioVideo;Video;Network;\nX-AppImage-Version=0.1.0\n",
    );
    string_from(&out)
}

/// Where a launcher entry may be installed (the first two in the user's
/// home).
pub open spec fn entry_paths_spec(home: Seq<char>) -> Seq<Seq<char>> {
    seq![
        home + "/.local/share/applications/tr.com.animecix.desktop"@,
        home + "/.local/share/applications/animecix.desktop"@,
        "/usr/share/applications/tr.com.animecix.desktop"@,
        "/usr/share/applications/animecix.desktop"@,
    ]
}

fn home_path(home: &str, rest: &str) -> (r: String)
    ensures
        r@ == home@ + rest@,
{
    let mut v = chars_of(home);
    extend_str(&mut v, rest);
    string_from(&v)
}

/// The places a launcher entry is looked for.
pub fn desktop_entry_paths(home: &str) -> (r: Vec<String>)
    ensures
        r@.map_values(|s: String| s@) == entry_paths_spec(home@),
{
    let mut v: Vec<String> = Vec::new();
    v.push(home_path(home, "/.local/share/applications/tr.com.animecix.desktop"));
    v.push(home_path(home, "/.local/share/applications/animecix.desktop"));
    v.push(owned("/usr/share/applications/tr.com.animecix.desktop"));
    v.push(owned("/usr/share/applications/animecix.desktop"));
    assert(v@.map_values(|s: String| s@) =~= entry_paths_spec(home@));
    v
}

/// What uninstalling removes from the user's home: the program copy, the
/// launcher entries and the icons.
pub open spec fn uninstall_paths_spec(home: Seq<char>) -> Seq<Seq<char>> {
    seq![
        home + "/.local/bin/animecix"@,
        home + "/.local/share/applications/tr.com.animecix.desktop"@,
        home + "/.local/share/applications/animecix.desktop"@,
        home + "/.local/share/icons/hicolor/256x256/apps/tr.com.animecix.png"@,
        home + "/.local/share/icons/hicolor/256x256/apps/animecix.png"@,
        home + "/.local/share/icons/tr.com.animecix.png"@,
        home + "/.local/share/icons/animecix.png"@,
    ]
}

/// The files uninstalling removes; none without a home.
pub fn uninstall_paths(home: &str) -> (r: Vec<String>)
    ensures
        home@.len() == 0 ==> r@.len() == 0,
        home@.len() > 0 ==> r@.map_values(|s: String| s@) == uninstall_paths_spec(home@),
{
    let mut v: Vec<String> = Vec::new();
    if home.is_empty() {
        return v;
    }
    v.push(home_path(home, "/.local/bin/animecix"));
    v.push(home_path(home, "/.local/share/applications/tr.com.animecix.desktop"));
    v.push(home_path(home, "/.local/share/applications/animecix.desktop"));
    v.push(home_path(home, "/.local/share/icons/hicolor/256x256/apps/tr.com.animecix.png"));
    v.push(home_path(home, "/.local/share/icons/hicolor/256x256/apps/animecix.png"));
    v.push(home_path(home, "/.local/share/icons/tr.com.animecix.png"));
    v.push(home_path(home, "/.local/share/icons/animecix.png"));
    assert(v@.map_values(|s: String| s@) =~= uninstall_paths_spec(home@));
    v
}

/// The distribution family named by `/etc/os-release` (lowercased):
/// 0 Debian-like, 1 Fedora, 2 Arch-like, 3 openSUSE, 4 unknown.
pub open spec fn family(os_release: Option<Seq<char>>) -> nat {
    match os_release {
        Some(t) => {
            let l = lowercase(t);
            if contains_sub(l, "ubuntu"@) || contains_sub(l, "debian"@) || contains_sub(l, "mint"@) {
                0
            } else if contains_sub(l, "fedora"@) {
                1
            } else if contains_sub(l, "arch"@) || contains_sub(l, "manjaro"@) {
                2
            } else if contains_sub(l, "suse"@) {
                3
            } else {
                4
            }
        },
        None => 4,
    }
}

fn has(l: &Vec<char>, p: &str) -> (r: bool)
    ensures
        r == contains_sub(l@, p@),
{
    let pv = chars_of(p);
    assert(l@.skip(0) =~= l@);
    find_sub_in(l, 0, &pv).is_some()
}

fn family_of(os_release: Option<&str>) -> (r: u8)
    ensures
        r as nat == family(match os_release { Some(t) => Some(t@), None => None }),
{
    match os_release {
        Some(t) => {
            let low = to_lowercase(t);
            let l = chars_of(low.as_str());
            if has(&l, "ubuntu") || has(&l, "debian") || has(&l, "mint") {
                0
            } else if has(&l, "fedora") {
                1
            } else if has(&l, "arch") || has(&l, "manjaro") {
                2
            } else if has(&l, "suse") {
                3
            } else {
                4
            }
        },
        None => 4,
    }
}

/// The package manager and its install command for each family.
pub open spec fn package_manager_spec(f: nat) -> (Seq<char>, Seq<char>) {
    if f == 0 {
        ("APT"@, "sudo apt update && sudo apt install -y"@)
    } else if f == 1 {
        ("DNF"@, "sudo dnf install -y"@)
    } else if f == 2 {
        ("Pacman"@, "sudo pacman -S --noconfirm"@)
    } else if f == 3 {
        ("Zypper"@, "sudo zypper install -y"@)
    } else {
        ("Paket Yöneticisi"@, "sudo apt install -y"@)
    }
}

/// The package manager of the system described by `os_release` (the text
/// of `/etc/os-release`, when it could be read) and its install command.
pub fn package_manager(os_release: Option<&str>) -> (r: (&'static str, &'static str))
    ensures
        (r.0@, r.1@) == package_manager_spec(family(match os_release { Some(t) => Some(t@), None => None })),
{
    let f = family_of(os_release);
    if f == 0 {
        ("APT", "sudo apt update && sudo apt install -y")
    } else if f == 1 {
        ("DNF", "sudo dnf install -y")
    } else if f == 2 {
        ("Pacman", "sudo pacman -S --noconfirm")
    } else if f == 3 {
        ("Zypper", "sudo zypper install -y")
    } else {
        ("Paket Yöneticisi", "sudo apt install -y")
    }
}

/// The distribution's name and its command that installs mpv.
pub open spec fn distro_spec(f: nat) -> (Seq<char>, Seq<char>) {
    if f == 0 {
        ("Ubuntu / Debian / Mint"@, "sudo apt update && sudo apt install mpv"@)
    } else if f == 1 {
        ("Fedora"@, "sudo dnf install mpv"@)
    } else if f == 2 {
        ("Arch / Manjaro"@, "sudo pacman -S mpv"@)
    } else if f == 3 {
        ("openSUSE"@, "sudo zypper install mpv"@)
    } else {
        ("Linux"@, "sudo apt install mpv   # ya da dnf/pacman/zypper install mpv"@)
    }
}

/// The distribution described by `os_release` and how mpv is installed there.
pub fn distro_info(os_release: Option<&str>) -> (r: (&'static str, &'static str))
    ensures
        (r.0@, r.1@) == distro_spec(family(match os_release { Some(t) => Some(t@), None => None })),
{
    let f = family_of(os_release);
    if f == 0 {
        ("Ubuntu / Debian / Mint", "sudo apt update && sudo apt install mpv")
    } else if f == 1 {
        ("Fedora", "sudo dnf install mpv")
    } else if f == 2 {
        ("Arch / Manjaro", "sudo pacman -S mpv")
    } else if f == 3 {
        ("openSUSE", "sudo zypper install mpv")
    } else {
        ("Linux", "sudo apt install mpv   # ya da dnf/pacman/zypper install mpv")
    }
}

/// A program the application needs, whether it was found, and how to
/// install it.
pub struct DepStatus {
    pub name: &'static str,
    pub desc: &'static str,
    pub installed: bool,
    pub install_cmd: Option<String>,
}

/// The three needed programs (mpv, curl, xdg-utils) with whether each was
/// found and the command that installs it on this system.
pub fn dependency_list(os_release: Option<&str>, has_mpv: bool, has_curl: bool, has_xdg: bool) -> (r: Vec<DepStatus>)
    ensures
        r@.len() == 3,
        r@[0].installed == has_mpv && r@[1].installed == has_curl && r@[2].installed == has_xdg,
        ({
            let f = family(match os_release { Some(t) => Some(t@), None => None });
            &&& r@[0].install_cmd matches Some(c) && c@ == distro_spec(f).1 + "   # ("@ + distro_spec(f).0 + ")"@
            &&& r@[1].install_cmd matches Some(c) && c@ == package_manager_spec(f).1 + " curl"@
            &&& r@[2].install_cmd matches Some(c) && c@ == package_manager_spec(f).1 + " xdg-utils"@
        }),
        r@[0].name@ == "Video Oynatıcı (mpv)"@,
        r@[1].name@ == "Sistem Medya İndirici (curl)"@,
        r@[2].name@ == "Masaüstü Bağlantı Araçları (xdg-utils)"@,
{
    let (distro_name, mpv_cmd) = distro_info(os_release);
    let (_, pkg_cmd) = package_manager(os_release);
    let mut a = chars_of(mpv_cmd);
    extend_str(&mut a, "   # (");
    extend_str(&mut a, distro_name);
    extend_str(&mut a, ")");
    let mut b = chars_of(pkg_cmd);
    extend_str(&mut b, " curl");
    let mut c = chars_of(pkg_cmd);
    extend_str(&mut c, " xdg-utils");
    let mut v: Vec<DepStatus> = Vec::new();
    v.push(DepStatus {
        name: "Video Oynatıcı (mpv)",
        desc: "Anime ve filmleri sorunsuz oynatabilmek için gereklidir.",
        installed: has_mpv,
        install_cmd: Some(string_from(&a)),
    });
    v.push(DepStatus {
        name: "Sistem Medya İndirici (curl)",
        desc: "Sunuculardan hızlı veri çekmek ve görsel kapakları için gereklidir.",
        installed: has_curl,
        install_cmd: Some(string_from(&b)),
    });
    v.push(DepStatus {
        name: "Masaüstü Bağlantı Araçları (xdg-utils)",
        desc: "Masaüstü entegrasyonu ve bağlantıları açmak için gereklidir.",
        installed: has_xdg,
        install_cmd: Some(string_from(&c)),
    });
    v
}

/// Whether an argument is `--goto=...`.
pub open spec fn is_goto_eq(a: Seq<char>) -> bool {
    starts_with(a, "--goto="@)
}

/// The arguments handed on to the toolkit: the program name, then all
/// others except `--goto <page>` (the page too) and `--goto=<page>`.
pub open spec fn strip_goto_spec(rest: Seq<Seq<char>>) -> Seq<Seq<char>>
    decreases rest.len(),
{
    if rest.len() == 0 {
        Seq::empty()
    } else if rest[0] == "--goto"@ {
        if rest.len() >= 2 { strip_goto_spec(rest.skip(2)) } else { Seq::empty() }
    } else if is_goto_eq(rest[0]) {
        strip_goto_spec(rest.drop_first())
    } else {
        seq![rest[0]] + strip_goto_spec(rest.drop_first())
    }
}

/// The command line without its `--goto` options.
pub open spec fn filtered_args_spec(args: Seq<Seq<char>>) -> Seq<Seq<char>> {
    if args.len() == 0 { Seq::empty() } else { seq![args[0]] + strip_goto_spec(args.drop_first()) }
}

pub open spec fn arg_views(v: Seq<String>) -> Seq<Seq<char>> {
    v.map_values(|s: String| s@)
}

/// Removes the `--goto` options the toolkit would refuse.
pub fn filter_args(args: &Vec<String>) -> (r: Vec<String>)
    ensures
        arg_views(r@) == filtered_args_spec(arg_views(args@)),
{
    let ghost av = arg_views(args@);
    let mut out: Vec<String> = Vec::new();
    if args.len() == 0 {
        assert(arg_views(out@) =~= filtered_args_spec(av));
        return out;
    }
    out.push(args[0].clone());
    let eqp = chars_of("--goto=");
    proof { reveal_strlit("--goto="); }
    let mut i: usize = 1;
    assert(av.drop_first() =~= av.skip(1));
    while i < args.len()
        invariant
            1 <= i <= args.len(),
            av == arg_views(args@),
            eqp@ == "--goto="@,
            filtered_args_spec(av) == arg_views(out@) + strip_goto_spec(av.skip(i as int)),
        decreases args.len() - i,
    {
        let ghost rest = av.skip(i as int);
        assert(rest[0] == args@[i as int]@);
        if str_eq(args[i].as_str(), "--goto") {
            if i + 1 < args.len() {
                assert(rest.skip(2) =~= av.skip(i + 2));
                i = i + 2;
            } else {
                assert(strip_goto_spec(rest) == Seq::<Seq<char>>::empty());
                assert(av.skip(args.len() as int) =~= Seq::<Seq<char>>::empty());
                i = args.len();
            }
        } else {
            let a = chars_of(args[i].as_str());
            assert(a@.subrange(0, a@.len() as int) =~= a@);
            let ghost before = arg_views(out@);
            if crate::text::range_starts_with(&a, 0, a.len(), &eqp) {
            } else {
                out.push(args[i].clone());
                assert(arg_views(out@) =~= before.push(rest[0]));
                assert(before + (seq![rest[0]] + strip_goto_spec(rest.drop_first())) =~= before.push(rest[0]) + strip_goto_spec(rest.drop_first()));
            }
            assert(rest.drop_first() =~= av.skip(i + 1));
            if i + 1 == args.len() {
                assert(av.skip(i + 1) =~= Seq::<Seq<char>>::empty());
            }
            i = i + 1;
        }
    }
    assert(strip_goto_spec(Seq::<Seq<char>>::empty()) == Seq::<Seq<char>>::empty());
    assert(arg_views(out@) + Seq::<Seq<char>>::empty() =~= arg_views(out@));
    out
}

/// The page values given with `--goto <page>`, in order (each `--goto`
/// takes the argument after it).
pub open spec fn goto_values_spec(args: Seq<Seq<char>>) -> Seq<Seq<char>>
    decreases args.len(),
{
    if args.len() == 0 {
        Seq::empty()
    } else if args[0] == "--goto"@ {
        if args.len() >= 2 { seq![args[1]] + goto_values_spec(args.skip(2)) } else { Seq::empty() }
    } else {
        goto_values_spec(args.drop_first())
    }
}

/// The pages asked for with `--goto` on the command line.
pub fn goto_values(args: &Vec<String>) -> (r: Vec<String>)
    ensures
        arg_views(r@) == goto_values_spec(arg_views(args@)),
{
    let ghost av = arg_views(args@);
    let mut out: Vec<String> = Vec::new();
    let mut i: usize = 0;
    assert(av.skip(0) =~= av);
    while i < args.len()
        invariant
            i <= args.len(),
            av == arg_views(args@),
            goto_values_spec(av) == arg_views(out@) + goto_values_spec(av.skip(i as int)),
        decreases args.len() - i,
    {
        let ghost rest = av.skip(i as int);
        assert(rest[0] == args@[i as int]@);
        if str_eq(args[i].as_str(), "--goto") {
            if i + 1 < args.len() {
                let ghost before = arg_views(out@);
                out.push(args[i + 1].clone());
                assert(rest[1] == args@[i + 1]@);
                assert(rest.skip(2) =~= av.skip(i + 2));
                assert(arg_views(out@) =~= before.push(rest[1]));
                assert(before + (seq![rest[1]] + goto_values_spec(rest.skip(2))) =~= before.push(rest[1]) + goto_values_spec(av.skip(i + 2)));
                i = i + 2;
            } else {
                assert(goto_values_spec(rest) == Seq::<Seq<char>>::empty());
                assert(av.skip(args.len() as int) =~= Seq::<Seq<char>>::empty());
                i = args.len();
            }
        } else {
            assert(rest.drop_first() =~= av.skip(i + 1));
            if i + 1 == args.len() {
                assert(av.skip(i + 1) =~= Seq::<Seq<char>>::empty());
            }
            i = i + 1;
        }
    }
    assert(goto_values_spec(Seq::<Seq<char>>::empty()) == Seq::<Seq<char>>::empty());
    assert(arg_views(out@) + Seq::<Seq<char>>::empty() =~= arg_views(out@));
    out
}

/// A page the command line may open.
#[derive(Clone, Copy, Debug, PartialEq, Eq, Structural)]
pub enum GotoPage {
    Welcome,
    Home,
    Favorites,
    Marathon,
    History,
    Settings,
    /// The home page with a sample search.
    Search,
    /// The home page, then the first listed title's episodes.
    Episodes,
}

/// The page a `--goto` value names, if any.
pub open spec fn goto_page_spec(v: Seq<char>) -> Option<GotoPage> {
    if v == "welcome"@ {
        Some(GotoPage::Welcome)
    } else if v == "home"@ {
        Some(GotoPage::Home)
    } else if v == "favorites"@ {
        Some(GotoPage::Favorites)
    } else if v == "marathon"@ {
        Some(GotoPage::Marathon)
    } else if v == "history"@ {
        Some(GotoPage::History)
    } else if v == "settings"@ {
        Some(GotoPage::Settings)
    } else if v == "search"@ {
        Some(GotoPage::Search)
    } else if v == "episodes"@ {
        Some(GotoPage::Episodes)
    } else {
        None
    }
}

/// Reads a `--goto` value.
pub fn goto_page(v: &str) -> (r: Option<GotoPage>)
    ensures
        r == goto_page_spec(v@),
{
    if str_eq(v, "welcome") {
        Some(GotoPage::Welcome)
    } else if str_eq(v, "home") {
        Some(GotoPage::Home)
    } else if str_eq(v, "favorites") {
        Some(GotoPage::Favorites)
    } else if str_eq(v, "marathon") {
        Some(GotoPage::Marathon)
    } else if str_eq(v, "history") {
        Some(GotoPage::History)
    } else if str_eq(v, "settings") {
        Some(GotoPage::Settings)
    } else if str_eq(v, "search") {
        Some(GotoPage::Search)
    } else if str_eq(v, "episodes") {
        Some(GotoPage::Episodes)
    } else {
        None
    }
}

/// The process ids in `pgrep` output: each line, trimmed, that reads as an
/// `i32`.
pub open spec fn pids_spec(lines: Seq<Seq<char>>) -> Seq<i32>
    decreases lines.len(),
{
    if lines.len() == 0 {
        Seq::empty()
    } else {
        pids_spec(lines.drop_last()) + match parse_i32_spec(trim(lines.last())) {
            Some(p) => seq![p],
            None => Seq::empty(),
        }
    }
}

/// Reads the process ids out of `pgrep` output.
pub fn parse_pids(out: &str) -> (r: Vec<i32>)
    ensures
        r@ == pids_spec(lines_spec(out@)),
{
    let ls = text_lines(out);
    let ghost lv = ls@.map_values(|l: Vec<char>| l@);
    let mut pids: Vec<i32> = Vec::new();
    let mut i: usize = 0;
    while i < ls.len()
        invariant
            i <= ls.len(),
            lv == ls@.map_values(|l: Vec<char>| l@),
            pids@ == pids_spec(lv.take(i as int)),
        decreases ls.len() - i,
    {
        assert(lv.take(i as int + 1).drop_last() =~= lv.take(i as int));
        let l = &ls[i];
        let (a, b) = trim_bounds(l, 0, l.len());
        assert(l@.subrange(0, l@.len() as int) =~= l@);
        if let Some(p) = parse_i32_in(l, a, b) {
            pids.push(p);
        }
        i = i + 1;
    }
    assert(lv.take(ls.len() as int) =~= lv);
    pids
}


/// The status badge of a dependency row (markup).
pub fn dependency_badge(installed: bool) -> (r: &'static str)
    ensures
        r@ == if installed {
            "<span foreground='#2ec27e' weight='bold'>🟢 Yüklü</span>"@
        } else {
            "<span foreground='#e01b24' weight='bold'>🔴 Eksik</span>"@
        },
{
    if installed {
        "<span foreground='#2ec27e' weight='bold'>🟢 Yüklü</span>"
    } else {
        "<span foreground='#e01b24' weight='bold'>🔴 Eksik</span>"
    }
}

/// The subtitle of a dependency row: its description, with the install
/// command when it is missing and one is known.
pub fn dependency_subtitle(d: &DepStatus) -> (r: String)
    ensures
        r@ == if !d.installed && d.install_cmd is Some {
            d.desc@ + " • Kurulum: "@ + d.install_cmd->0@
        } else {
            d.desc@
        },
{
    let mut v = crate::text::chars_of(d.desc);
    if !d.installed {
        if let Some(cmd) = &d.install_cmd {
            crate::text::extend_str(&mut v, " • Kurulum: ");
            crate::text::extend_str(&mut v, cmd.as_str());
        }
    }
    crate::text::string_from(&v)
}

} // verus!
