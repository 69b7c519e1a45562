//! Song layer of the player: which song link to offer, the key that opens it
//! and the subtitle overlay that names the opening and ending songs.

use vstd::prelude::*;
use crate::text::{
    chars_of, decimal, decimal2, extend_chars, extend_str, find_char, find_char_in, owned,
    range_starts_with, replace_char, replace_char_vec, starts_with, string_from, trim,
    trim_bounds, u64_decimal, u64_decimal2, chars_eq,
};

verus! {

/// Song metadata of an opening or ending.
pub struct MusicData {
    pub title: String,
    pub artist: String,
    pub spotify_url: Option<String>,
    pub apple_music_url: Option<String>,
    pub song_link: Option<String>,
}

/// Hosts a song link may point to.
pub open spec fn song_host(h: Seq<char>) -> bool {
    h == "open.spotify.com"@ || h == "music.apple.com"@ || h == "lis.tn"@
}

/// Characters that may not appear in a song link (they would break the
/// shell line that opens it).
pub open spec fn unsafe_link_char(c: char) -> bool {
    c == '\'' || c == '"' || c == '\n' || c == '\r' || c == ' '
}

/// The host part of what follows `https://`: up to the first `/`.
pub open spec fn host_of(rest: Seq<char>) -> Seq<char> {
    match find_char(rest, '/') {
        Some(p) => rest.take(p),
        None => rest,
    }
}

/// A song link is accepted, trimmed, when it is `https://` on one of the
/// allowed hosts and holds none of the unsafe characters.
pub open spec fn valid_song_url_spec(u: Seq<char>) -> Option<Seq<char>> {
    let s = trim(u);
    if starts_with(s, "https://"@) && !(exists|i: int| 0 <= i < s.len() && unsafe_link_char(#[trigger] s[i]))
        && song_host(host_of(s.skip(8))) {
        Some(s)
    } else {
        None
    }
}

fn is_song_host(h: &Vec<char>) -> (r: bool)
    ensures
        r == song_host(h@),
{
    let a = chars_of("open.spotify.com");
    let b = chars_of("music.apple.com");
    let c = chars_of("lis.tn");
    chars_eq(h, &a) || chars_eq(h, &b) || chars_eq(h, &c)
}

fn valid_song_url(u: &str) -> (r: Option<String>)
    ensures
        match r {
            Some(s) => valid_song_url_spec(u@) == Some(s@),
            None => valid_song_url_spec(u@) is None,
        },
{
    let v = chars_of(u);
    let (a, b) = trim_bounds(&v, 0, v.len());
    assert(v@.subrange(0, v@.len() as int) =~= v@);
    let ghost s = v@.subrange(a as int, b as int);
    let https = chars_of("https://");
    proof { reveal_strlit("https://"); }
    if !range_starts_with(&v, a, b, &https) {
        return None;
    }
    let mut i = a;
    while i < b
        invariant
            a <= i <= b <= v.len(),
            s == v@.subrange(a as int, b as int),
            s == trim(u@),
            forall|j: int| 0 <= j < i - a ==> !unsafe_link_char(#[trigger] s[j]),
        decreases b - i,
    {
        let c = v[i];
        if c == '\'' || c == '"' || c == '\n' || c == '\r' || c == ' ' {
            assert(unsafe_link_char(s[i - a]));
            return None;
        }
        i = i + 1;
    }
    let h0 = a + 8;
    assert(s.skip(8) =~= v@.subrange(h0 as int, b as int));
    let slash = find_char_in(&v, h0, b, '/');
    let hend = match slash {
        Some(p) => p,
        None => b,
    };
    let mut host: Vec<char> = Vec::new();
    let mut k = h0;
    while k < hend
        invariant
            h0 <= k <= hend <= b <= v.len(),
            host@ == v@.subrange(h0 as int, k as int),
        decreases hend - k,
    {
        host.push(v[k]);
        assert(host@ =~= v@.subrange(h0 as int, k + 1));
        k = k + 1;
    }
    assert(host@ == host_of(s.skip(8))) by {
        match slash {
            Some(p) => {
                assert(s.skip(8).take(p - h0) =~= v@.subrange(h0 as int, p as int));
            },
            None => {},
        }
    }
    if is_song_host(&host) {
        let mut out: Vec<char> = Vec::new();
        let mut j = a;
        while j < b
            invariant
                a <= j <= b <= v.len(),
                out@ == v@.subrange(a as int, j as int),
            decreases b - j,
        {
            out.push(v[j]);
            assert(out@ =~= v@.subrange(a as int, j + 1));
            j = j + 1;
        }
        Some(string_from(&out))
    } else {
        None
    }
}

/// The first acceptable link among a song's Spotify, Apple Music and short
/// links, in that order.
pub open spec fn first_song_url(m: MusicData) -> Option<Seq<char>> {
    let a = match m.spotify_url { Some(u) => valid_song_url_spec(u@), None => None };
    let b = match m.apple_music_url { Some(u) => valid_song_url_spec(u@), None => None };
    let c = match m.song_link { Some(u) => valid_song_url_spec(u@), None => None };
    if a is Some { a } else if b is Some { b } else { c }
}

/// The song link to offer: the opening's first acceptable link, else the
/// ending's.
pub open spec fn pick_song_url_spec(op: Option<MusicData>, ed: Option<MusicData>) -> Option<Seq<char>> {
    let o = match op { Some(m) => first_song_url(m), None => None };
    let e = match ed { Some(m) => first_song_url(m), None => None };
    if o is Some { o } else { e }
}

fn opt_url(u: &Option<String>) -> (r: Option<String>)
    ensures
        match r {
            Some(s) => match u { Some(x) => valid_song_url_spec(x@) == Some(s@), None => false },
            None => match u { Some(x) => valid_song_url_spec(x@) is None, None => true },
        },
{
    match u {
        Some(x) => valid_song_url(x.as_str()),
        None => None,
    }
}

fn one_song_url(m: &MusicData) -> (r: Option<String>)
    ensures
        match r {
            Some(s) => first_song_url(*m) == Some(s@),
            None => first_song_url(*m) is None,
        },
{
    let a = opt_url(&m.spotify_url);
    if a.is_some() {
        return a;
    }
    let b = opt_url(&m.apple_music_url);
    if b.is_some() {
        return b;
    }
    opt_url(&m.song_link)
}

/// Song link for the `M` key: the opening's Spotify, Apple Music or short
/// link (first acceptable one), else the ending's; `None` when none is
/// acceptable.
pub fn pick_song_url(op: Option<&MusicData>, ed: Option<&MusicData>) -> (r: Option<String>)
    ensures
        match r {
            Some(s) => pick_song_url_spec(
                match op { Some(m) => Some(*m), None => None },
                match ed { Some(m) => Some(*m), None => None },
            ) == Some(s@),
            None => pick_song_url_spec(
                match op { Some(m) => Some(*m), None => None },
                match ed { Some(m) => Some(*m), None => None },
            ) is None,
        },
{
    if let Some(m) = op {
        let a = one_song_url(m);
        if a.is_some() {
            return a;
        }
    }
    match ed {
        Some(m) => one_song_url(m),
        None => None,
    }
}

/// The mpv key line that opens `url` in the browser and confirms on screen.
pub open spec fn music_keybind_spec(url: Seq<char>) -> Seq<char> {
    let safe = replace_char(url, '\'', "%27"@);
    "M run \"/bin/sh\" \"-c\" \"xdg-open '"@ + safe + "' || gio open '"@ + safe
        + "' || true\" ; set osd-align-x right ; set osd-align-y top ; set osd-margin-x 24 ; set osd-margin-y 85 ; show-text \"🌐 tarayıcıda açıldı\" 3000\n"@
}

/// `Shift+M` key line: opens the song in the default browser (`xdg-open`,
/// `gio open` as fallback) and shows a short confirmation at the top right.
pub fn music_keybind_line(url: &str) -> (r: String)
    ensures
        r@ == music_keybind_spec(url@),
{
    let u = chars_of(url);
    let pct = chars_of("%27");
    let safe = replace_char_vec(&u, '\'', &pct);
    let mut out: Vec<char> = Vec::new();
    extend_str(&mut out, "M run \"/bin/sh\" \"-c\" \"xdg-open '");
    extend_chars(&mut out, &safe);
    extend_str(&mut out, "' || gio open '");
    extend_chars(&mut out, &safe);
    extend_str(
        &mut out,
        "' || true\" ; set osd-align-x right ; set osd-align-y top ; set osd-margin-x 24 ; set osd-margin-y 85 ; show-text \"🌐 tarayıcıda açıldı\" 3000\n",
    );
    assert(out@ =~= music_keybind_spec(url@));
    string_from(&out)
}

/// `h:mm:ss.cc` for a time in hundredths of a second (ASS subtitle time).
pub open spec fn ass_time_spec(cs: nat) -> Seq<char> {
    let h = cs / 360000;
    let m = (cs % 360000) / 6000;
    let s = (cs % 6000) / 100;
    let c = cs % 100;
    decimal(h) + ":"@ + decimal2(m) + ":"@ + decimal2(s) + "."@ + decimal2(c)
}

/// Formats a time given in hundredths of a second as an ASS time stamp.
pub fn ass_time(cs: u64) -> (r: Vec<char>)
    ensures
        r@ == ass_time_spec(cs as nat),
{
    let mut out = u64_decimal(cs / 360000);
    extend_str(&mut out, ":");
    let m = u64_decimal2((cs % 360000) / 6000);
    extend_chars(&mut out, &m);
    extend_str(&mut out, ":");
    let s = u64_decimal2((cs % 6000) / 100);
    extend_chars(&mut out, &s);
    extend_str(&mut out, ".");
    let c = u64_decimal2(cs % 100);
    extend_chars(&mut out, &c);
    assert(out@ =~= ass_time_spec(cs as nat));
    out
}

/// Subtitle-safe text: braces removed, line breaks turned into spaces.
pub open spec fn ass_text_spec(s: Seq<char>) -> Seq<char>
    decreases s.len(),
{
    if s.len() == 0 {
        Seq::empty()
    } else {
        let c = s.last();
        ass_text_spec(s.drop_last()) + (if c == '{' || c == '}' {
            Seq::empty()
        } else if c == '\n' || c == '\r' {
            seq![' ']
        } else {
            seq![c]
        })
    }
}

/// Removes `{` and `}` and turns line breaks into spaces.
pub fn ass_text(s: &Vec<char>) -> (r: Vec<char>)
    ensures
        r@ == ass_text_spec(s@),
{
    let mut out: Vec<char> = Vec::new();
    let mut i: usize = 0;
    while i < s.len()
        invariant
            i <= s.len(),
            out@ == ass_text_spec(s@.take(i as int)),
        decreases s.len() - i,
    {
        assert(s@.take(i as int + 1).drop_last() =~= s@.take(i as int));
        let c = s[i];
        if c == '{' || c == '}' {
            assert(out@ =~= ass_text_spec(s@.take(i as int + 1)));
        } else if c == '\n' || c == '\r' {
            out.push(' ');
        } else {
            out.push(c);
        }
        i = i + 1;
    }
    assert(s@.take(s.len() as int) =~= s@);
    out
}

/// One dialogue line of the song overlay.
pub open spec fn dialogue_spec(tag: Seq<char>, from: nat, to: nat, line: Seq<char>, show_hint: bool) -> Seq<char> {
    let body = ass_text_spec(line);
    let text = if body.len() > 0 && body[0] == '🎵' {
        "{\\an9}"@ + body
    } else {
        "{\\an9}🎵 "@ + tag + ": "@ + body
    };
    let text = if show_hint { text + " (Shift+M: tarayıcıda aç)"@ } else { text };
    "Dialogue: 0,"@ + ass_time_spec(from) + ","@ + ass_time_spec(to) + ",Song,,0,0,0,,"@ + text + "\n"@
}

/// The header of the overlay file, with the given font.
pub open spec fn ass_header_spec(font: Seq<char>) -> Seq<char> {
    "[Script Info]\nScriptType: v4.00+\nPlayResX: 1280\nPlayResY: 720\nScaledBorderAndShadow: yes\n\n[V4+ Styles]\nFormat: Name, Fontname, Fontsize, PrimaryColour, OutlineColour, BackColour, Bold, Italic, BorderStyle, Outline, Shadow, Alignment, MarginL, MarginR, MarginV, Encoding\nStyle: Song,"@
        + font
        + ",34,&H00FFFFFF,&H90000000,&H90000000,0,0,1,2,0,9,24,24,24,1\n\n[Events]\nFormat: Layer, Start, End, Style, Name, MarginL, MarginR, MarginV, Effect, Text\n"@
}

/// The song overlay: a header and one line per song (opening, then
/// ending), or nothing at all when there is no song.
pub open spec fn music_ass_spec(
    op: Option<(nat, nat, Seq<char>)>,
    ed: Option<(nat, nat, Seq<char>)>,
    font: Seq<char>,
    show_hint: bool,
) -> Seq<char> {
    let a = match op { Some((f, t, l)) => dialogue_spec("Açılış"@, f, t, l, show_hint), None => Seq::empty() };
    let b = match ed { Some((f, t, l)) => dialogue_spec("Kapanış"@, f, t, l, show_hint), None => Seq::empty() };
    if op is None && ed is None {
        Seq::empty()
    } else {
        ass_header_spec(font) + a + b
    }
}

fn dialogue(tag: &str, from: u64, to: u64, line: &str, show_hint: bool) -> (r: Vec<char>)
    ensures
        r@ == dialogue_spec(tag@, from as nat, to as nat, line@, show_hint),
{
    let lc = chars_of(line);
    let body = ass_text(&lc);
    let mut text: Vec<char> = Vec::new();
    if body.len() > 0 && body[0] == '🎵' {
        extend_str(&mut text, "{\\an9}");
        extend_chars(&mut text, &body);
    } else {
        extend_str(&mut text, "{\\an9}🎵 ");
        extend_str(&mut text, tag);
        extend_str(&mut text, ": ");
        extend_chars(&mut text, &body);
    }
    if show_hint {
        extend_str(&mut text, " (Shift+M: tarayıcıda aç)");
    }
    let mut out: Vec<char> = Vec::new();
    extend_str(&mut out, "Dialogue: 0,");
    let f = ass_time(from);
    extend_chars(&mut out, &f);
    extend_str(&mut out, ",");
    let t = ass_time(to);
    extend_chars(&mut out, &t);
    extend_str(&mut out, ",Song,,0,0,0,,");
    extend_chars(&mut out, &text);
    extend_str(&mut out, "\n");
    proof {
        let b = ass_text_spec(line@);
        if b.len() > 0 && b[0] == '🎵' {
            assert(text@ =~= "{\\an9}"@ + b + (if show_hint { " (Shift+M: tarayıcıda aç)"@ } else { Seq::empty() }));
        } else {
            assert(text@ =~= "{\\an9}🎵 "@ + tag@ + ": "@ + b + (if show_hint { " (Shift+M: tarayıcıda aç)"@ } else { Seq::empty() }));
        }
    }
    assert(out@ =~= dialogue_spec(tag@, from as nat, to as nat, line@, show_hint));
    out
}

/// Persistent top-right song overlay (ASS subtitles). Each song is given as
/// (start, end, line) with times in hundredths of a second; with no song
/// the result is empty and no subtitle file is written.
pub fn music_ass(
    op: Option<(u64, u64, &str)>,
    ed: Option<(u64, u64, &str)>,
    font: &str,
    show_hint: bool,
) -> (r: String)
    ensures
        r@ == music_ass_spec(
            match op { Some((f, t, l)) => Some((f as nat, t as nat, l@)), None => None },
            match ed { Some((f, t, l)) => Some((f as nat, t as nat, l@)), None => None },
            font@,
            show_hint,
        ),
{
    if op.is_none() && ed.is_none() {
        return String::new();
    }
    let mut out: Vec<char> = Vec::new();
    extend_str(
        &mut out,
        "[Script Info]\nScriptType: v4.00+\nPlayResX: 1280\nPlayResY: 720\nScaledBorderAndShadow: yes\n\n[V4+ Styles]\nFormat: Name, Fontname, Fontsize, PrimaryColour, OutlineColour, BackColour, Bold, Italic, BorderStyle, Outline, Shadow, Alignment, MarginL, MarginR, MarginV, Encoding\nStyle: Song,",
    );
    extend_str(&mut out, font);
    extend_str(
        &mut out,
        ",34,&H00FFFFFF,&H90000000,&H90000000,0,0,1,2,0,9,24,24,24,1\n\n[Events]\nFormat: Layer, Start, End, Style, Name, MarginL, MarginR, MarginV, Effect, Text\n",
    );
    let ghost head = out@;
    if let Some((f, t, l)) = op {
        let d = dialogue("Açılış", f, t, l, show_hint);
        extend_chars(&mut out, &d);
    }
    let ghost mid = out@;
    if let Some((f, t, l)) = ed {
        let d = dialogue("Kapanış", f, t, l, show_hint);
        extend_chars(&mut out, &d);
    }
    assert(out@ =~= music_ass_spec(
        match op { Some((f, t, l)) => Some((f as nat, t as nat, l@)), None => None },
        match ed { Some((f, t, l)) => Some((f as nat, t as nat, l@)), None => None },
        font@,
        show_hint,
    ));
    string_from(&out)
}

/// The song overlay holds one line per song given, whatever the other one
/// is: with no song it is empty; otherwise it starts with the header, the
/// opening song's line follows the header when there is an opening song,
/// the ending song's line closes the overlay when there is an ending song,
/// and nothing else is in it.
pub proof fn lemma_music_ass_lines(
    op: Option<(nat, nat, Seq<char>)>,
    ed: Option<(nat, nat, Seq<char>)>,
    font: Seq<char>,
    show_hint: bool,
)
    ensures
        ({
            let r = music_ass_spec(op, ed, font, show_hint);
            let h = ass_header_spec(font);
            &&& (op is None && ed is None) ==> r.len() == 0
            &&& !(op is None && ed is None) ==> r.take(h.len() as int) == h
            &&& match op {
                Some((f, t, l)) => {
                    let d = dialogue_spec("Açılış"@, f, t, l, show_hint);
                    r.subrange(h.len() as int, (h.len() + d.len()) as int) == d
                },
                None => true,
            }
            &&& match ed {
                Some((f, t, l)) => {
                    let d = dialogue_spec("Kapanış"@, f, t, l, show_hint);
                    r.len() >= d.len() && r.skip(r.len() - d.len()) == d
                },
                None => true,
            }
            &&& !(op is None && ed is None) ==> r.len() == h.len()
                + (match op { Some((f, t, l)) => dialogue_spec("Açılış"@, f, t, l, show_hint).len(), None => 0 })
                + (match ed { Some((f, t, l)) => dialogue_spec("Kapanış"@, f, t, l, show_hint).len(), None => 0 })
        }),
{
    let r = music_ass_spec(op, ed, font, show_hint);
    let h = ass_header_spec(font);
    let a = match op { Some((f, t, l)) => dialogue_spec("Açılış"@, f, t, l, show_hint), None => Seq::empty() };
    let b = match ed { Some((f, t, l)) => dialogue_spec("Kapanış"@, f, t, l, show_hint), None => Seq::empty() };
    if !(op is None && ed is None) {
        assert(r == h + a + b);
        assert(r.take(h.len() as int) =~= h);
        assert(r.subrange(h.len() as int, (h.len() + a.len()) as int) =~= a);
        assert(r.skip(r.len() - b.len()) =~= b);
    }
}

} // verus!
