//! Optional local VPN proxy (sing-box): where its program and configuration
//! are looked for, where it logs, and the setup guide shown when it is
//! missing.

use vstd::prelude::*;
use crate::text::{chars_of, decimal, extend_chars, extend_str, owned, string_from, u64_decimal};

verus! {

/// Local port the proxy listens on (mixed socks/http).
pub const PROXY_PORT: u16 = 10808;

/// `Path::parent` of a path: the path without its last component, `None`
/// for a root or an empty path.
pub uninterp spec fn path_parent(p: Seq<char>) -> Option<Seq<char>>;

/// The parent directory of a path, by std's `Path::parent`; its result is
/// the name `path_parent` of the path (the parent of a `str` path is a
/// prefix of it, so the text conversion loses nothing).
#[verifier::external_body]
fn parent_of(p: &str) -> (r: Option<String>)
    ensures
        match r {
            Some(s) => path_parent(p@) == Some(s@),
            None => path_parent(p@) is None,
        },
{
    std::path::Path::new(p).parent().map(|d| d.to_string_lossy().into_owned())
}

/// `PathBuf::push` on Unix: an absolute `b` replaces `a`; otherwise `b` is
/// appended, with a `/` between unless `a` is empty or already ends in one.
pub open spec fn join_path(a: Seq<char>, b: Seq<char>) -> Seq<char> {
    if b.len() > 0 && b[0] == '/' {
        b
    } else if a.len() == 0 || a.last() == '/' {
        a + b
    } else {
        a + seq!['/'] + b
    }
}

/// Joins a relative or absolute path `b` onto `a`, as `PathBuf::push` does.
pub fn join_path_str(a: &str, b: &str) -> (r: String)
    ensures
        r@ == join_path(a@, b@),
{
    let av = chars_of(a);
    let bv = chars_of(b);
    if bv.len() > 0 && bv[0] == '/' {
        return owned(b);
    }
    let mut out = av;
    if out.len() > 0 && out[out.len() - 1] != '/' {
        out.push('/');
    }
    extend_str(&mut out, b);
    string_from(&out)
}

/// The sing-box program locations tried, in order of preference.
pub open spec fn bin_candidates_spec(home: Seq<char>) -> Seq<Seq<char>> {
    seq![
        home + "/.local/share/singbox/sing-box"@,
        home + "/.local/bin/sing-box"@,
        "/usr/bin/sing-box"@,
        "/usr/local/bin/sing-box"@,
    ]
}

/// Default sing-box program paths (in order of preference).
pub fn bin_candidates(home: &str) -> (r: Vec<String>)
    ensures
        r@.map_values(|s: String| s@) == bin_candidates_spec(home@),
{
    let mut v: Vec<String> = Vec::new();
    let mut a = chars_of(home);
    extend_str(&mut a, "/.local/share/singbox/sing-box");
    v.push(string_from(&a));
    let mut b = chars_of(home);
    extend_str(&mut b, "/.local/bin/sing-box");
    v.push(string_from(&b));
    v.push(owned("/usr/bin/sing-box"));
    v.push(owned("/usr/local/bin/sing-box"));
    assert(v@.map_values(|s: String| s@) =~= bin_candidates_spec(home@));
    v
}

/// The configuration files tried for a program: `config.json` beside it
/// first (when it has a directory), then three places under the home.
pub open spec fn config_candidates_spec(home: Seq<char>, bin: Seq<char>) -> Seq<Seq<char>> {
    let rest = seq![
        home + "/.local/share/singbox/config.json"@,
        home + "/vpn-config.json"@,
        home + "/sing-box-config.json"@,
    ];
    match path_parent(bin) {
        Some(dir) => seq![join_path(dir, "config.json"@)] + rest,
        None => rest,
    }
}

/// Configuration paths to try for the given program (its own directory first).
pub fn config_candidates(home: &str, bin: &str) -> (r: Vec<String>)
    ensures
        r@.map_values(|s: String| s@) == config_candidates_spec(home@, bin@),
{
    let mut v: Vec<String> = Vec::new();
    if let Some(dir) = parent_of(bin) {
        v.push(join_path_str(dir.as_str(), "config.json"));
    }
    let ghost first = v@.map_values(|s: String| s@);
    let mut a = chars_of(home);
    extend_str(&mut a, "/.local/share/singbox/config.json");
    v.push(string_from(&a));
    let mut b = chars_of(home);
    extend_str(&mut b, "/vpn-config.json");
    v.push(string_from(&b));
    let mut c = chars_of(home);
    extend_str(&mut c, "/sing-box-config.json");
    v.push(string_from(&c));
    assert(v@.map_values(|s: String| s@) =~= config_candidates_spec(home@, bin@));
    v
}

/// The application's data directory: `$XDG_DATA_HOME/animecix` when that
/// variable is set and not empty, else `$HOME/.local/share/animecix`, else
/// `/tmp`.
pub open spec fn data_dir_spec(xdg_data_home: Option<Seq<char>>, home: Option<Seq<char>>) -> Seq<char> {
    match xdg_data_home {
        Some(d) if d.len() > 0 => join_path(d, "animecix"@),
        _ => match home {
            Some(h) => join_path(h, ".local/share/animecix"@),
            None => "/tmp"@,
        },
    }
}

/// The application's data directory for the given environment values.
pub fn data_dir(xdg_data_home: Option<&str>, home: Option<&str>) -> (r: String)
    ensures
        r@ == data_dir_spec(
            match xdg_data_home { Some(d) => Some(d@), None => None },
            match home { Some(h) => Some(h@), None => None },
        ),
{
    if let Some(d) = xdg_data_home {
        if !d.is_empty() {
            return join_path_str(d, "animecix");
        }
    }
    match home {
        Some(h) => join_path_str(h, ".local/share/animecix"),
        None => owned("/tmp"),
    }
}

/// Where the proxy writes its log: `singbox.log` in the data directory.
pub fn log_path(xdg_data_home: Option<&str>, home: Option<&str>) -> (r: String)
    ensures
        r@ == join_path(
            data_dir_spec(
                match xdg_data_home { Some(d) => Some(d@), None => None },
                match home { Some(h) => Some(h@), None => None },
            ),
            "singbox.log"@,
        ),
{
    let d = data_dir(xdg_data_home, home);
    join_path_str(d.as_str(), "singbox.log")
}

/// The step-by-step setup guide, with the home directory filled in.
pub open spec fn setup_instructions_spec(home: Seq<char>) -> Seq<char> {
    let dir = home + "/.local/share/singbox"@;
    "sing-box bulunamadı. Tek seferlik kurulum (~2 dakika):\n\n1) sing-box indir (Linux x86_64 tar.gz):\n    github.com/SagerNet/sing-box/releases\n\n2) Arşivi açıp binary'yi şuraya koy:\n    "@
        + dir + "/sing-box\n    (mkdir -p "@ + dir + " && cp sing-box "@ + dir + "/ && chmod +x "@ + dir
        + "/sing-box)\n\n3) Ücretsiz ProtonVPN hesabı aç → protonvpn.com → Downloads →\n    WireGuard configuration → GNU/Linux seç → indirilen dosyayı şuraya kaydet:\n    "@
        + dir
        + "/config.json\n\n4) Bu pencereyi kapatıp \"Başlat\"a tekrar bas.\n\nNot: Uygulama config'i binary'nin yanında, ~/.local/share/singbox/,\n~/vpn-config.json veya ~/sing-box-config.json yolunda arar."@
}

/// One-time setup guide for the proxy (in Turkish), for the given home.
pub fn setup_instructions(home: &str) -> (r: String)
    ensures
        r@ == setup_instructions_spec(home@),
{
    let mut dir = chars_of(home);
    extend_str(&mut dir, "/.local/share/singbox");
    let d = string_from(&dir);
    let mut out: Vec<char> = Vec::new();
    extend_str(&mut out, "sing-box bulunamadı. Tek seferlik kurulum (~2 dakika):\n\n1) sing-box indir (Linux x86_64 tar.gz):\n    github.com/SagerNet/sing-box/releases\n\n2) Arşivi açıp binary'yi şuraya koy:\n    ");
    extend_str(&mut out, d.as_str());
    extend_str(&mut out, "/sing-box\n    (mkdir -p ");
    extend_str(&mut out, d.as_str());
    extend_str(&mut out, " && cp sing-box ");
    extend_str(&mut out, d.as_str());
    extend_str(&mut out, "/ && chmod +x ");
    extend_str(&mut out, d.as_str());
    extend_str(&mut out, "/sing-box)\n\n3) Ücretsiz ProtonVPN hesabı aç → protonvpn.com → Downloads →\n    WireGuard configuration → GNU/Linux seç → indirilen dosyayı şuraya kaydet:\n    ");
    extend_str(&mut out, d.as_str());
    extend_str(&mut out, "/config.json\n\n4) Bu pencereyi kapatıp \"Başlat\"a tekrar bas.\n\nNot: Uygulama config'i binary'nin yanında, ~/.local/share/singbox/,\n~/vpn-config.json veya ~/sing-box-config.json yolunda arar.");
    assert(out@ =~= setup_instructions_spec(home@));
    string_from(&out)
}


// ---------------------------------------------------------------------------
// Starting and stopping the proxy
// ---------------------------------------------------------------------------

/// How many times the port is checked after the proxy was launched
/// (250 ms apart: six seconds).
pub const START_CHECKS: u32 = 24;

/// How many times the port is checked after each signal (125 ms apart).
pub const STOP_CHECKS: u32 = 16;

/// What the start loop does after check number `done` (counted from 0)
/// found the port open (`alive`) or not: `Some(true)` it is up,
/// `Some(false)` it gives up, `None` it sleeps and checks again.
pub fn start_wait_step(done: u32, alive: bool) -> (r: Option<bool>)
    ensures
        r == if alive { Some(true) } else if done + 1 >= START_CHECKS { Some(false) } else { None::<bool> },
{
    if alive {
        Some(true)
    } else if done >= START_CHECKS - 1 {
        Some(false)
    } else {
        None
    }
}

/// The error of a start whose port never opened.
pub fn start_timeout_message(log: &str) -> (r: String)
    ensures
        r@ == "süreç başladı ama "@ + decimal(PROXY_PORT as nat)
            + ". port 6 sn içinde açılmadı (config hatalı olabilir).\nLog: "@ + log@,
{
    let mut v = chars_of("süreç başladı ama ");
    let d = u64_decimal(PROXY_PORT as u64);
    extend_chars(&mut v, &d);
    extend_str(&mut v, ". port 6 sn içinde açılmadı (config hatalı olabilir).\nLog: ");
    extend_str(&mut v, log);
    string_from(&v)
}

/// The line written to the log when the proxy is launched.
pub fn start_log_line(stamp: &str, bin: &str, cfg: &str) -> (r: String)
    ensures
        r@ == "\n["@ + stamp@ + "] başlatılıyor: "@ + bin@ + " -c "@ + cfg@,
{
    let mut v = chars_of("\n[");
    extend_str(&mut v, stamp);
    extend_str(&mut v, "] başlatılıyor: ");
    extend_str(&mut v, bin);
    extend_str(&mut v, " -c ");
    extend_str(&mut v, cfg);
    string_from(&v)
}

/// Where stopping the proxy stands: waiting after the polite signal or
/// after the hard one, with the checks made so far.
#[derive(Clone, Copy, Debug, PartialEq, Eq, Structural)]
pub enum StopPhase {
    AfterTerm(u32),
    AfterKill(u32),
}

/// What the stop loop does next.
#[derive(Clone, Copy, Debug, PartialEq, Eq, Structural)]
pub enum StopAction {
    /// Sleep, then check the port again in the given phase.
    Wait(StopPhase),
    /// Sleep, send the hard signal to every process, and check again.
    Kill,
    /// Stop, with the answer.
    Finish(bool),
}

/// The stop loop's decision after a port check: a closed port ends it;
/// otherwise it waits, up to `STOP_CHECKS` checks after the polite signal,
/// then sends the hard one and waits as long again, and then ends anyway.
pub fn stop_step(phase: StopPhase, alive: bool) -> (r: StopAction)
    requires
        match phase { StopPhase::AfterTerm(n) => n < STOP_CHECKS, StopPhase::AfterKill(n) => n < STOP_CHECKS },
    ensures
        r == stop_next(phase, alive),
{
    if !alive {
        return StopAction::Finish(true);
    }
    match phase {
        StopPhase::AfterTerm(n) => if n + 1 < STOP_CHECKS { StopAction::Wait(StopPhase::AfterTerm(n + 1)) } else { StopAction::Kill },
        StopPhase::AfterKill(n) => if n + 1 < STOP_CHECKS { StopAction::Wait(StopPhase::AfterKill(n + 1)) } else { StopAction::Finish(true) },
    }
}

/// The stop loop's decision after a port check.
pub open spec fn stop_next(phase: StopPhase, alive: bool) -> StopAction {
    if !alive {
        StopAction::Finish(true)
    } else {
        match phase {
            StopPhase::AfterTerm(n) => if n + 1 < STOP_CHECKS { StopAction::Wait(StopPhase::AfterTerm((n + 1) as u32)) } else { StopAction::Kill },
            StopPhase::AfterKill(n) => if n + 1 < STOP_CHECKS { StopAction::Wait(StopPhase::AfterKill((n + 1) as u32)) } else { StopAction::Finish(true) },
        }
    }
}


/// Checks left before the stop loop ends at the latest.
pub open spec fn stop_budget(phase: StopPhase) -> int {
    match phase {
        StopPhase::AfterTerm(n) => 2 * STOP_CHECKS - n,
        StopPhase::AfterKill(n) => STOP_CHECKS - n,
    }
}

/// Stopping ends: every step that does not finish leaves fewer checks to
/// make (sending the hard signal starts a fresh round of `STOP_CHECKS`), and
/// a finished stop always reports that processes were stopped.
pub proof fn lemma_stop_ends(phase: StopPhase, alive: bool)
    requires
        match phase { StopPhase::AfterTerm(n) => n < STOP_CHECKS, StopPhase::AfterKill(n) => n < STOP_CHECKS },
    ensures
        stop_budget(phase) > 0,
        match stop_next(phase, alive) {
            StopAction::Finish(b) => b,
            StopAction::Wait(p) => stop_budget(p) < stop_budget(phase)
                && match p { StopPhase::AfterTerm(m) => m < STOP_CHECKS, StopPhase::AfterKill(m) => m < STOP_CHECKS },
            StopAction::Kill => stop_budget(StopPhase::AfterKill(0)) < stop_budget(phase),
        },
{
}

} // verus!
