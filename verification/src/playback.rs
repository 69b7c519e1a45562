//! Playing an episode: the names and files of a playback, the player's
//! key bindings for moving between episodes, how the source attempts go
//! on, and the texts shown meanwhile.

use vstd::prelude::*;
use crate::catalog::Episode;
use crate::text::{
    chars_eq, chars_of, decimal, decimal2, extend_chars, extend_str, owned, string_from, trim, trim_bounds,
    u64_decimal, u64_decimal2,
};

verus! {

/// The title the player shows: `{name} | S{season:02}E{episode:02}`.
pub open spec fn media_title_spec(name: Seq<char>, season: u64, episode: u64) -> Seq<char> {
    name + " | S"@ + decimal2(season as nat) + "E"@ + decimal2(episode as nat)
}

/// Builds the title the player shows for an episode.
pub fn media_title(name: &str, season: u64, episode: u64) -> (r: String)
    ensures
        r@ == media_title_spec(name@, season, episode),
{
    let mut v = chars_of(name);
    extend_str(&mut v, " | S");
    let s = u64_decimal2(season);
    extend_chars(&mut v, &s);
    extend_str(&mut v, "E");
    let e = u64_decimal2(episode);
    extend_chars(&mut v, &e);
    string_from(&v)
}

/// The key a playback position is saved under: `{title}:{season}:{episode}`.
pub open spec fn progress_key_spec(tid: u64, season: u64, episode: u64) -> Seq<char> {
    decimal(tid as nat) + ":"@ + decimal(season as nat) + ":"@ + decimal(episode as nat)
}

/// Builds the key of an episode's saved position.
pub fn progress_key(tid: u64, season: u64, episode: u64) -> (r: String)
    ensures
        r@ == progress_key_spec(tid, season, episode),
{
    let mut v = u64_decimal(tid);
    extend_str(&mut v, ":");
    let s = u64_decimal(season);
    extend_chars(&mut v, &s);
    extend_str(&mut v, ":");
    let e = u64_decimal(episode);
    extend_chars(&mut v, &e);
    string_from(&v)
}

/// The files of a playback: the player's IPC socket, the file the episode
/// keys write to, and the key bindings file.
pub open spec fn playback_files_spec(tid: u64, season: u64, episode: u64) -> (Seq<char>, Seq<char>, Seq<char>) {
    (
        "/tmp/animecix-mpv-"@ + decimal(tid as nat) + "-"@ + decimal(season as nat) + "-"@ + decimal(episode as nat) + ".sock"@,
        "/tmp/animecix-cmd-"@ + decimal(tid as nat) + ".cmd"@,
        "/tmp/animecix-input-"@ + decimal(tid as nat) + ".conf"@,
    )
}

/// Names the files of a playback.
pub fn playback_files(tid: u64, season: u64, episode: u64) -> (r: (String, String, String))
    ensures
        (r.0@, r.1@, r.2@) == playback_files_spec(tid, season, episode),
{
    let t = u64_decimal(tid);
    let mut sock = chars_of("/tmp/animecix-mpv-");
    extend_chars(&mut sock, &t);
    extend_str(&mut sock, "-");
    let s = u64_decimal(season);
    extend_chars(&mut sock, &s);
    extend_str(&mut sock, "-");
    let e = u64_decimal(episode);
    extend_chars(&mut sock, &e);
    extend_str(&mut sock, ".sock");
    let mut cmd = chars_of("/tmp/animecix-cmd-");
    extend_chars(&mut cmd, &t);
    extend_str(&mut cmd, ".cmd");
    let mut conf = chars_of("/tmp/animecix-input-");
    extend_chars(&mut conf, &t);
    extend_str(&mut conf, ".conf");
    (string_from(&sock), string_from(&cmd), string_from(&conf))
}

/// The bindings after the skip keys: `S` goes back 30 seconds, `n`/`N`
/// write `next` and `p`/`P` write `prev` to the command file.
pub open spec fn episode_keys_spec(cmd_file: Seq<char>) -> Seq<char> {
    let next = " run \"sh\" \"-c\" \"echo next > "@ + cmd_file + "\"; show-text \"⏳ Sonraki Bölüm Yükleniyor...\" 4000\n"@;
    let prev = " run \"sh\" \"-c\" \"echo prev > "@ + cmd_file + "\"; show-text \"⏳ Önceki Bölüm Yükleniyor...\" 4000\n"@;
    "S seek -30; show-text \"⏪ 30s Geri\" 2000\n"@ + "n"@ + next + "N"@ + next + "p"@ + prev + "P"@ + prev
}

/// Writes the episode keys of the bindings file.
pub fn episode_keys(cmd_file: &str) -> (r: String)
    ensures
        r@ == episode_keys_spec(cmd_file@),
{
    let mut next = chars_of(" run \"sh\" \"-c\" \"echo next > ");
    extend_str(&mut next, cmd_file);
    extend_str(&mut next, "\"; show-text \"⏳ Sonraki Bölüm Yükleniyor...\" 4000\n");
    let mut prev = chars_of(" run \"sh\" \"-c\" \"echo prev > ");
    extend_str(&mut prev, cmd_file);
    extend_str(&mut prev, "\"; show-text \"⏳ Önceki Bölüm Yükleniyor...\" 4000\n");
    let mut out = chars_of("S seek -30; show-text \"⏪ 30s Geri\" 2000\n");
    extend_str(&mut out, "n");
    extend_chars(&mut out, &next);
    extend_str(&mut out, "N");
    extend_chars(&mut out, &next);
    extend_str(&mut out, "p");
    extend_chars(&mut out, &prev);
    extend_str(&mut out, "P");
    extend_chars(&mut out, &prev);
    string_from(&out)
}

/// The episode an `n`/`p` command moves to from episode `current`: the
/// next one for `next`, the previous one for `prev` unless at the first;
/// nothing for anything else (the text is trimmed first).
pub open spec fn episode_command_spec(cmd: Seq<char>, current: u64) -> Option<u64> {
    let c = trim(cmd);
    if c == "next"@ {
        Some((current + 1) as u64)
    } else if c == "prev"@ && current > 1 {
        Some((current - 1) as u64)
    } else {
        None
    }
}

/// Reads what the episode keys wrote.
pub fn episode_command(cmd: &str, current: u64) -> (r: Option<u64>)
    requires
        current < u64::MAX,
    ensures
        r == episode_command_spec(cmd@, current),
{
    let v = chars_of(cmd);
    let (a, b) = trim_bounds(&v, 0, v.len());
    assert(v@.subrange(0, v@.len() as int) =~= v@);
    let t = crate::text::sub_vec(&v, a, b);
    if chars_eq(&t, &chars_of("next")) {
        Some(current + 1)
    } else if chars_eq(&t, &chars_of("prev")) && current > 1 {
        Some(current - 1)
    } else {
        None
    }
}

/// The entry the player moves to: episode `target` of `season`, named
/// `Bölüm {target}`.
pub fn moved_episode(season: u64, target: u64) -> (r: Episode)
    ensures
        r.season == season && r.episode == target,
        r.name@ == "Bölüm "@ + decimal(target as nat),
{
    let mut n = chars_of("Bölüm ");
    let d = u64_decimal(target);
    extend_chars(&mut n, &d);
    Episode { episode: target, season, name: string_from(&n) }
}

/// A duration in whole seconds as a clock: `h:mm:ss` from an hour on,
/// `m:ss` below.
pub open spec fn clock_spec(s: nat) -> Seq<char> {
    if s >= 3600 {
        decimal(s / 3600) + ":"@ + decimal2((s % 3600) / 60) + ":"@ + decimal2(s % 60)
    } else {
        decimal(s / 60) + ":"@ + decimal2(s % 60)
    }
}

/// Writes whole seconds as a clock.
pub fn clock_text(s: u64) -> (r: String)
    ensures
        r@ == clock_spec(s as nat),
{
    let mut v: Vec<char>;
    if s >= 3600 {
        v = u64_decimal(s / 3600);
        extend_str(&mut v, ":");
        let m = u64_decimal2((s % 3600) / 60);
        extend_chars(&mut v, &m);
    } else {
        v = u64_decimal(s / 60);
    }
    extend_str(&mut v, ":");
    let x = u64_decimal2(s % 60);
    extend_chars(&mut v, &x);
    string_from(&v)
}

/// What the start notice adds when playback resumes at second `s`.
pub fn resume_note(s: u64) -> (r: String)
    ensures
        r@ == " ("@ + clock_spec(s as nat) + "'den)"@,
{
    let mut v = chars_of(" (");
    let c = clock_text(s);
    extend_str(&mut v, c.as_str());
    extend_str(&mut v, "'den)");
    string_from(&v)
}

/// The start notice of a playback.
pub fn opening_notice(media_title: &str, resume: &str) -> (r: String)
    ensures
        r@ == "▶ "@ + media_title@ + " açılıyor…"@ + resume@,
{
    let mut v = chars_of("▶ ");
    extend_str(&mut v, media_title);
    extend_str(&mut v, " açılıyor…");
    extend_str(&mut v, resume);
    string_from(&v)
}

/// The player options of an attempt: user agent, title, IPC socket,
/// full screen when wanted, bindings file, start position when resuming
/// (already written in seconds), caching and network settings.
pub open spec fn mpv_args_spec(title: Seq<char>, sock: Seq<char>, fullscreen: bool, conf: Seq<char>, start: Option<Seq<char>>) -> Seq<Seq<char>> {
    seq!["--user-agent=mozilla"@, "--force-media-title="@ + title, "--keep-open=yes"@, "--input-ipc-server="@ + sock]
        + (if fullscreen { seq!["--fullscreen"@] } else { Seq::empty() })
        + seq!["--input-conf="@ + conf]
        + (match start { Some(p) => seq!["--start="@ + p], None => Seq::empty() })
        + seq![
            "--cache=yes"@,
            "--demuxer-max-bytes=128MiB"@,
            "--demuxer-max-back-bytes=32MiB"@,
            "--demuxer-readahead-secs=120"@,
            "--cache-pause=yes"@,
            "--cache-pause-wait=3"@,
            "--cache-secs=120"@,
            "--stream-lavf-o=reconnect=1,reconnect_streamed=1,reconnect_delay_max=5"@,
            "--network-timeout=10"@,
            "--hwdec=auto-safe"@,
            "--ytdl-format=bestvideo[height<=1080]+bestaudio/best"@,
        ]
}

fn prefixed(p: &str, v: &str) -> (r: String)
    ensures
        r@ == p@ + v@,
{
    let mut c = chars_of(p);
    extend_str(&mut c, v);
    string_from(&c)
}

/// The player options of an attempt, in order (the address goes last).
pub fn mpv_args(title: &str, sock: &str, fullscreen: bool, conf: &str, start: Option<&str>) -> (r: Vec<String>)
    ensures
        r@.map_values(|s: String| s@) == mpv_args_spec(title@, sock@, fullscreen, conf@, match start {
            Some(p) => Some(p@),
            None => None,
        }),
{
    let mut v: Vec<String> = Vec::new();
    v.push(owned("--user-agent=mozilla"));
    v.push(prefixed("--force-media-title=", title));
    v.push(owned("--keep-open=yes"));
    v.push(prefixed("--input-ipc-server=", sock));
    let ghost a = v@.map_values(|s: String| s@);
    if fullscreen {
        v.push(owned("--fullscreen"));
    }
    let ghost b = v@.map_values(|s: String| s@);
    v.push(prefixed("--input-conf=", conf));
    let ghost c = v@.map_values(|s: String| s@);
    if let Some(p) = start {
        v.push(prefixed("--start=", p));
    }
    let ghost d = v@.map_values(|s: String| s@);
    v.push(owned("--cache=yes"));
    v.push(owned("--demuxer-max-bytes=128MiB"));
    v.push(owned("--demuxer-max-back-bytes=32MiB"));
    v.push(owned("--demuxer-readahead-secs=120"));
    v.push(owned("--cache-pause=yes"));
    v.push(owned("--cache-pause-wait=3"));
    v.push(owned("--cache-secs=120"));
    v.push(owned("--stream-lavf-o=reconnect=1,reconnect_streamed=1,reconnect_delay_max=5"));
    v.push(owned("--network-timeout=10"));
    v.push(owned("--hwdec=auto-safe"));
    v.push(owned("--ytdl-format=bestvideo[height<=1080]+bestaudio/best"));
    proof {
        let st = match start { Some(p) => Some(p@), None => None };
        assert(b =~= a + (if fullscreen { seq!["--fullscreen"@] } else { Seq::empty() }));
        assert(d =~= c + (match st { Some(p) => seq!["--start="@ + p], None => Seq::empty() }));
        assert(v@.map_values(|s: String| s@) =~= mpv_args_spec(title@, sock@, fullscreen, conf@, st));
    }
    v
}

/// How long an attempt may take to open before the next source is tried,
/// in milliseconds.
pub const OPEN_TIMEOUT_MS: u64 = 25000;

/// One look at a running attempt: whether the player has exited, whether
/// its socket has appeared, whether it was seen playing before, and how
/// long it has run. Returns whether it is playing now and whether to stop
/// watching it.
pub open spec fn watch_spec(exited: bool, socket_seen: bool, playing: bool, elapsed_ms: u64) -> (bool, bool) {
    if exited {
        (playing, true)
    } else {
        let now_playing = playing || socket_seen;
        (now_playing, elapsed_ms > OPEN_TIMEOUT_MS && !now_playing)
    }
}

/// Watches a running attempt.
pub fn watch_attempt(exited: bool, socket_seen: bool, playing: bool, elapsed_ms: u64) -> (r: (bool, bool))
    ensures
        r == watch_spec(exited, socket_seen, playing, elapsed_ms),
{
    if exited {
        return (playing, true);
    }
    let now_playing = playing || socket_seen;
    (now_playing, elapsed_ms > OPEN_TIMEOUT_MS && !now_playing)
}

/// What follows an attempt that ended.
#[derive(Clone, Debug)]
pub enum AfterAttempt {
    /// The episode played; no other source is tried.
    Done,
    /// Try the next source, telling the viewer so.
    TryNext(String),
    /// No source opened.
    GiveUp(String),
}

/// Decides what follows attempt `index` of `count`.
pub fn after_attempt(playing: bool, index: usize, count: usize) -> (r: AfterAttempt)
    requires
        index < count,
    ensures
        playing ==> r is Done,
        !playing && index + 1 < count ==> (r matches AfterAttempt::TryNext(m) && m@ == "Kaynak açılamadı, diğer kaynağa geçiliyor…"@),
        !playing && index + 1 >= count ==> (r matches AfterAttempt::GiveUp(m) && m@ == "Bölüm hiçbir kaynakta açılamadı."@),
{
    if playing {
        AfterAttempt::Done
    } else if index + 1 < count {
        AfterAttempt::TryNext(owned("Kaynak açılamadı, diğer kaynağa geçiliyor…"))
    } else {
        AfterAttempt::GiveUp(owned("Bölüm hiçbir kaynakta açılamadı."))
    }
}

/// The page a title's episode list opens: the film page when there are no
/// episodes or the title is a film, else the episode page.
pub open spec fn opens_film_page_spec(title_type: Option<Seq<char>>, episode_count: nat) -> bool {
    episode_count == 0 || title_type == Some("movie"@)
}

/// Whether a title's episodes open on the film page.
pub fn opens_film_page(title_type: &Option<String>, eps: &Vec<Episode>) -> (r: bool)
    ensures
        r == opens_film_page_spec(crate::catalog::opt_view(*title_type), eps@.len()),
{
    if eps.len() == 0 {
        return true;
    }
    match title_type {
        Some(t) => crate::text::str_eq(t.as_str(), "movie"),
        None => false,
    }
}

/// The search a query starts: the query trimmed, none when blank.
pub fn search_query(q: &str) -> (r: Option<String>)
    ensures
        trim(q@).len() == 0 ==> r is None,
        trim(q@).len() > 0 ==> (r matches Some(s) && s@ == trim(q@)),
{
    let v = chars_of(q);
    let (a, b) = trim_bounds(&v, 0, v.len());
    assert(v@.subrange(0, v@.len() as int) =~= v@);
    if a == b {
        None
    } else {
        let t = crate::text::sub_vec(&v, a, b);
        Some(string_from(&t))
    }
}

/// The position a resumed episode starts at is saved under the key that
/// the watched-episode count reads back: its season and episode.
pub proof fn lemma_progress_key_read_back(tid: u64, season: u64, episode: u64)
    ensures
        crate::library::progress_pair(progress_key_spec(tid, season, episode), tid)
            == Some((decimal(season as nat), decimal(episode as nat))),
{
    let t = decimal(tid as nat);
    let s = decimal(season as nat);
    let e = decimal(episode as nat);
    reveal_strlit(":");
    crate::text::lemma_decimal_digits(tid as nat);
    crate::text::lemma_decimal_digits(season as nat);
    crate::text::lemma_decimal_digits(episode as nat);
    let k = progress_key_spec(tid, season, episode);
    let prefix = t.push(':');
    assert(k =~= prefix + (s + seq![':'] + e));
    assert(k.take(prefix.len() as int) =~= prefix);
    let rest = k.skip(prefix.len() as int);
    assert(rest =~= s + seq![':'] + e);
    crate::text::lemma_split_digits_colon(s, e);
}

/// Watching an attempt: once seen playing it stays playing, also when the
/// player exits (so no other source is tried after it); an exited player
/// is no longer watched; a player that has not exited is playing exactly
/// when it was before or its socket has appeared, and is given up exactly
/// when it is not playing after the time allowed to open.
pub proof fn lemma_watch_keeps_playing(exited: bool, socket_seen: bool, playing: bool, elapsed_ms: u64)
    ensures
        playing ==> watch_spec(exited, socket_seen, playing, elapsed_ms).0,
        exited ==> watch_spec(exited, socket_seen, playing, elapsed_ms).1,
        exited ==> watch_spec(exited, socket_seen, playing, elapsed_ms).0 == playing,
        !exited ==> watch_spec(exited, socket_seen, playing, elapsed_ms).0 == (playing || socket_seen),
        !exited ==> (watch_spec(exited, socket_seen, playing, elapsed_ms).1
            <==> (elapsed_ms > OPEN_TIMEOUT_MS && !playing && !socket_seen)),
{
}

} // verus!
