//! Intro/outro skipping in the player: the skip plan of an episode, the mpv
//! key bindings it turns into, and the on-screen messages.

use vstd::prelude::*;
use crate::text::{
    chars_of, clone_opt_string, decimal, decimal2, digit_char, extend_chars, extend_str, owned,
    replace_char, replace_char_vec, string_from, u64_decimal, u64_decimal2,
};

verus! {

/// Skip windows of an episode, in tenths of a second: intro start/end and
/// outro start/end, each possibly unknown.
#[derive(Clone, Copy, Debug, PartialEq, Eq)]
pub struct SkipTimes {
    pub op_start: Option<u64>,
    pub op_end: Option<u64>,
    pub ed_start: Option<u64>,
    pub ed_end: Option<u64>,
}

impl Default for SkipTimes {
    fn default() -> (r: Self)
        ensures
            r.op_start is None && r.op_end is None && r.ed_start is None && r.ed_end is None,
    {
        SkipTimes { op_start: None, op_end: None, ed_start: None, ed_end: None }
    }
}

/// What is kept of a skip plan between runs.
#[derive(Clone, Debug)]
pub struct CachedSkip {
    pub times: SkipTimes,
    pub music_op: Option<String>,
    pub music_ed: Option<String>,
    pub song_url: Option<String>,
}

/// Skip state of one episode: windows, song lines, song link and the label
/// of where the windows came from.
#[derive(Clone, Debug)]
pub struct SkipPlan {
    pub times: SkipTimes,
    pub music_op: Option<String>,
    pub music_ed: Option<String>,
    pub song_url: Option<String>,
    pub source: String,
}

impl Default for SkipPlan {
    fn default() -> (r: Self)
        ensures
            r.times.op_start is None && r.times.op_end is None && r.times.ed_start is None
                && r.times.ed_end is None,
            r.music_op is None && r.music_ed is None && r.song_url is None,
            r.source@ == Seq::<char>::empty(),
    {
        SkipPlan {
            times: SkipTimes::default(),
            music_op: None,
            music_ed: None,
            song_url: None,
            source: String::new(),
        }
    }
}

impl SkipPlan {
    /// A plan rebuilt from the cache, labelled with `source`.
    pub fn from_cached(cs: &CachedSkip, source: &str) -> (r: SkipPlan)
        ensures
            r.times == cs.times,
            r.music_op == cs.music_op,
            r.music_ed == cs.music_ed,
            r.song_url == cs.song_url,
            r.source@ == source@,
    {
        SkipPlan {
            times: cs.times,
            music_op: clone_opt_string(&cs.music_op),
            music_ed: clone_opt_string(&cs.music_ed),
            song_url: clone_opt_string(&cs.song_url),
            source: owned(source),
        }
    }

    /// A plan is empty when neither the intro nor the outro end is known.
    pub fn is_empty(&self) -> (r: bool)
        ensures
            r == (self.times.op_end is None && self.times.ed_end is None),
    {
        self.times.op_end.is_none() && self.times.ed_end.is_none()
    }

    /// What goes into the cache: everything but the source label.
    pub fn cached(&self) -> (r: CachedSkip)
        ensures
            r.times == self.times,
            r.music_op == self.music_op,
            r.music_ed == self.music_ed,
            r.song_url == self.song_url,
    {
        CachedSkip {
            times: self.times,
            music_op: clone_opt_string(&self.music_op),
            music_ed: clone_opt_string(&self.music_ed),
            song_url: clone_opt_string(&self.song_url),
        }
    }
}

/// A time in tenths of a second written with one decimal (`{:.1}`).
pub open spec fn seconds1(t: nat) -> Seq<char> {
    decimal(t / 10) + "."@ + seq![digit_char(t % 10)]
}

/// Whole seconds of a time in tenths, as `MM:SS`.
pub open spec fn mmss(t: nat) -> Seq<char> {
    let s = t / 10;
    decimal2(s / 60) + ":"@ + decimal2(s % 60)
}

/// The OSD placement every skip binding first restores (bottom left).
pub open spec fn osd_align() -> Seq<char> {
    "set osd-align-x left; set osd-align-y bottom; set osd-margin-x 30; set osd-margin-y 30;"@
}

/// The binding of one key (`s` for the intro, `e` for the outro): jump to
/// the end of the window and say so, or say that the window is unknown.
pub open spec fn skip_binding(key: Seq<char>, what: Seq<char>, start: Option<u64>, end: Option<u64>, source: Seq<char>) -> Seq<char> {
    match (start, end) {
        (Some(st), Some(et)) => key + " seek "@ + seconds1(et as nat) + " absolute; "@ + osd_align()
            + " show-text \"⏩ "@ + what + " Atlandı ("@ + source + ": "@ + mmss(st as nat) + " → "@
            + mmss(et as nat) + ")\" 3000\n"@,
        _ => key + " "@ + osd_align() + " show-text \"⚠️ "@ + what + " zamanı bulunamadı\" 2500\n"@,
    }
}

/// The mpv `input.conf` of an episode: `s` skips the intro, `e` the outro,
/// `S` goes back 30 seconds, `End` is disabled.
pub open spec fn input_conf_spec(t: SkipTimes, source: Seq<char>) -> Seq<char> {
    skip_binding("s"@, "İntro"@, t.op_start, t.op_end, source) + skip_binding(
        "e"@,
        "Outro"@,
        t.ed_start,
        t.ed_end,
        source,
    ) + "S seek -30; "@ + osd_align() + " show-text \"⏪ 30s Geri\" 2000\nEnd ignore\n"@
}

fn seconds1_chars(t: u64) -> (r: Vec<char>)
    ensures
        r@ == seconds1(t as nat),
{
    let mut out = u64_decimal(t / 10);
    extend_str(&mut out, ".");
    let d = t % 10;
    let c = ((d as u32) + ('0' as u32)) as u8 as char;
    out.push(c);
    assert(out@ =~= seconds1(t as nat));
    out
}

fn mmss_chars(t: u64) -> (r: Vec<char>)
    ensures
        r@ == mmss(t as nat),
{
    let s = t / 10;
    let mut out = u64_decimal2(s / 60);
    extend_str(&mut out, ":");
    let b = u64_decimal2(s % 60);
    extend_chars(&mut out, &b);
    assert(out@ =~= mmss(t as nat));
    out
}

fn push_binding(out: &mut Vec<char>, key: &str, what: &str, start: Option<u64>, end: Option<u64>, source: &str)
    ensures
        final(out)@ == old(out)@ + skip_binding(key@, what@, start, end, source@),
{
    let ghost before = out@;
    let align = "set osd-align-x left; set osd-align-y bottom; set osd-margin-x 30; set osd-margin-y 30;";
    match (start, end) {
        (Some(st), Some(et)) => {
            extend_str(out, key);
            extend_str(out, " seek ");
            let e1 = seconds1_chars(et);
            extend_chars(out, &e1);
            extend_str(out, " absolute; ");
            extend_str(out, align);
            extend_str(out, " show-text \"⏩ ");
            extend_str(out, what);
            extend_str(out, " Atlandı (");
            extend_str(out, source);
            extend_str(out, ": ");
            let a = mmss_chars(st);
            extend_chars(out, &a);
            extend_str(out, " → ");
            let b = mmss_chars(et);
            extend_chars(out, &b);
            extend_str(out, ")\" 3000\n");
        },
        _ => {
            extend_str(out, key);
            extend_str(out, " ");
            extend_str(out, align);
            extend_str(out, " show-text \"⚠️ ");
            extend_str(out, what);
            extend_str(out, " zamanı bulunamadı\" 2500\n");
        },
    }
    assert(out@ =~= before + skip_binding(key@, what@, start, end, source@));
}

/// mpv `input.conf` for an episode. A missing window gets an honest
/// "not found" message instead of a jump; every binding first pins the OSD
/// to the bottom left.
pub fn input_conf(t: &SkipTimes, source: &str) -> (r: String)
    ensures
        r@ == input_conf_spec(*t, source@),
{
    let mut out: Vec<char> = Vec::new();
    push_binding(&mut out, "s", "İntro", t.op_start, t.op_end, source);
    push_binding(&mut out, "e", "Outro", t.ed_start, t.ed_end, source);
    extend_str(&mut out, "S seek -30; ");
    extend_str(&mut out, "set osd-align-x left; set osd-align-y bottom; set osd-margin-x 30; set osd-margin-y 30;");
    extend_str(&mut out, " show-text \"⏪ 30s Geri\" 2000\nEnd ignore\n");
    assert(out@ =~= input_conf_spec(*t, source@));
    string_from(&out)
}

/// Text made safe for an mpv IPC JSON string: `\` becomes `/`, `"` becomes `'`.
pub open spec fn mpv_safe_spec(s: Seq<char>) -> Seq<char> {
    replace_char(replace_char(s, '\\', seq!['/']), '"', seq!['\''])
}

/// Neutralises the characters that would break an mpv IPC JSON string.
pub fn mpv_safe_text(s: &str) -> (r: String)
    ensures
        r@ == mpv_safe_spec(s@),
{
    let v = chars_of(s);
    let slash = vec!['/'];
    let quote = vec!['\''];
    let a = replace_char_vec(&v, '\\', &slash);
    let b = replace_char_vec(&a, '"', &quote);
    assert(slash@ =~= seq!['/']);
    assert(quote@ =~= seq!['\'']);
    string_from(&b)
}

proof fn lemma_replace_char_removes(s: Seq<char>, c: char, by: Seq<char>, x: char)
    requires
        !by.contains(x),
        x == c || !s.contains(x),
    ensures
        !replace_char(s, c, by).contains(x),
    decreases s.len(),
{
    if s.len() > 0 {
        assert(x == c || !s.drop_last().contains(x)) by {
            if x != c && s.drop_last().contains(x) {
                let k = choose|k: int| 0 <= k < s.drop_last().len() && s.drop_last()[k] == x;
                assert(s[k] == x);
            }
        }
        lemma_replace_char_removes(s.drop_last(), c, by, x);
        let pre = replace_char(s.drop_last(), c, by);
        let tail = if s.last() == c { by } else { seq![s.last()] };
        if (pre + tail).contains(x) {
            let k = choose|k: int| 0 <= k < (pre + tail).len() && (pre + tail)[k] == x;
            if k < pre.len() {
                assert(pre[k] == x);
            } else {
                assert(tail[k - pre.len()] == x);
                if s.last() != c {
                    assert(s[s.len() - 1] == x);
                }
            }
        }
    }
}

proof fn lemma_replace_char_keeps_absent(s: Seq<char>, c: char, by: Seq<char>, x: char)
    requires
        !by.contains(x),
        !s.contains(x),
    ensures
        !replace_char(s, c, by).contains(x),
{
    lemma_replace_char_removes(s, c, by, x);
}

/// Text made safe for mpv holds neither `"` nor `\`.
pub proof fn lemma_mpv_safe_has_no_breakers(s: Seq<char>)
    ensures
        !mpv_safe_spec(s).contains('"'),
        !mpv_safe_spec(s).contains('\\'),
{
    let a = replace_char(s, '\\', seq!['/']);
    assert(!seq!['/'].contains('\\')) by {
        if seq!['/'].contains('\\') {
            let k = choose|k: int| 0 <= k < 1 && seq!['/'][k] == '\\';
        }
    }
    assert(!seq!['\''].contains('"')) by {
        if seq!['\''].contains('"') {
            let k = choose|k: int| 0 <= k < 1 && seq!['\''][k] == '"';
        }
    }
    assert(!seq!['\''].contains('\\')) by {
        if seq!['\''].contains('\\') {
            let k = choose|k: int| 0 <= k < 1 && seq!['\''][k] == '\\';
        }
    }
    lemma_replace_char_removes(s, '\\', seq!['/'], '\\');
    lemma_replace_char_removes(a, '"', seq!['\''], '"');
    lemma_replace_char_keeps_absent(a, '"', seq!['\''], '\\');
}

/// The IPC command that shows `text` (made safe) for `ms` milliseconds.
pub open spec fn show_text_cmd_spec(text: Seq<char>, ms: u32) -> Seq<char> {
    "{\"command\":[\"show-text\", \""@ + mpv_safe_spec(text) + "\", "@ + decimal(ms as nat) + "]}\n"@
}

/// Builds the OSD command for `text` shown `ms` milliseconds, escaping included.
pub fn show_text_cmd(text: &str, ms: u32) -> (r: String)
    ensures
        r@ == show_text_cmd_spec(text@, ms),
{
    let safe = mpv_safe_text(text);
    let mut out: Vec<char> = Vec::new();
    extend_str(&mut out, "{\"command\":[\"show-text\", \"");
    extend_str(&mut out, safe.as_str());
    extend_str(&mut out, "\", ");
    let d = u64_decimal(ms as u64);
    extend_chars(&mut out, &d);
    extend_str(&mut out, "]}\n");
    assert(out@ =~= show_text_cmd_spec(text@, ms));
    string_from(&out)
}

/// The skip OSD sequence: first the bottom-left placement (the `M` key may
/// have moved it), then the text.
pub open spec fn skip_osd_cmds_spec(text: Seq<char>, ms: u32) -> Seq<Seq<char>> {
    seq![
        "{\"command\":[\"set_property\", \"osd-align-x\", \"left\"]}\n"@,
        "{\"command\":[\"set_property\", \"osd-align-y\", \"bottom\"]}\n"@,
        "{\"command\":[\"set_property\", \"osd-margin-x\", 30]}\n"@,
        "{\"command\":[\"set_property\", \"osd-margin-y\", 30]}\n"@,
        show_text_cmd_spec(text, ms),
    ]
}

/// The IPC commands that announce a skip: four placement commands, then the text.
pub fn skip_osd_cmds(text: &str, ms: u32) -> (r: Vec<String>)
    ensures
        r@.map_values(|s: String| s@) == skip_osd_cmds_spec(text@, ms),
{
    let mut v: Vec<String> = Vec::new();
    v.push(owned("{\"command\":[\"set_property\", \"osd-align-x\", \"left\"]}\n"));
    v.push(owned("{\"command\":[\"set_property\", \"osd-align-y\", \"bottom\"]}\n"));
    v.push(owned("{\"command\":[\"set_property\", \"osd-margin-x\", 30]}\n"));
    v.push(owned("{\"command\":[\"set_property\", \"osd-margin-y\", 30]}\n"));
    v.push(show_text_cmd(text, ms));
    assert(v@.map_values(|s: String| s@) =~= skip_osd_cmds_spec(text@, ms));
    v
}

/// The intro notice, followed by ` • {song}` when a song is known.
pub open spec fn prompt_op_spec(music: Option<Seq<char>>) -> Seq<char> {
    let base = "⏩ İntro Başladı ('s' ile atlayabilirsiniz)"@;
    match music {
        Some(m) => base + " • "@ + m,
        None => base,
    }
}

/// The outro notice, followed by ` • {song}` when a song is known.
pub open spec fn prompt_ed_spec(music: Option<Seq<char>>) -> Seq<char> {
    let base = "🏁 Outro Başladı"@;
    match music {
        Some(m) => base + " • "@ + m,
        None => base,
    }
}

/// Intro start notice (with the song when there is one).
pub fn prompt_op(music: Option<&str>) -> (r: String)
    ensures
        r@ == prompt_op_spec(match music { Some(m) => Some(m@), None => None }),
{
    let mut out: Vec<char> = Vec::new();
    extend_str(&mut out, "⏩ İntro Başladı ('s' ile atlayabilirsiniz)");
    if let Some(m) = music {
        extend_str(&mut out, " • ");
        extend_str(&mut out, m);
    }
    string_from(&out)
}

/// Outro start notice (with the song when there is one).
pub fn prompt_ed(music: Option<&str>) -> (r: String)
    ensures
        r@ == prompt_ed_spec(match music { Some(m) => Some(m@), None => None }),
{
    let mut out: Vec<char> = Vec::new();
    extend_str(&mut out, "🏁 Outro Başladı");
    if let Some(m) = music {
        extend_str(&mut out, " • ");
        extend_str(&mut out, m);
    }
    string_from(&out)
}

} // verus!
