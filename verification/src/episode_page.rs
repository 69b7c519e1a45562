//! The decisions of a title's episode page: film or series layout, the
//! quick episode search (its shortcut and its filter), and the texts of the
//! page's buttons and menus.

use vstd::prelude::*;
use crate::catalog::{lowercase, to_lowercase, Episode};
use crate::text::{
    chars_eq, chars_of, contains_sub, decimal, decimal2, extend_chars, extend_str, find_sub_in, str_eq, string_from,
    sub_vec, trim, trim_bounds, u64_decimal, u64_decimal2,
};

verus! {

fn contains_text(s: &str, p: &str) -> (r: bool)
    ensures
        r == contains_sub(s@, p@),
{
    let sv = chars_of(s);
    let pv = chars_of(p);
    assert(sv@.skip(0) =~= sv@);
    find_sub_in(&sv, 0, &pv).is_some()
}

/// Whether the page is laid out as a film: a film title, or a single entry
/// whose name has "Filmi" in it.
pub open spec fn film_layout_spec(title_type: Option<Seq<char>>, names: Seq<Seq<char>>) -> bool {
    title_type == Some("movie"@) || (names.len() == 1 && contains_sub(names[0], "Filmi"@))
}

/// Decides the film layout of a title's page.
pub fn film_layout(title_type: &Option<String>, eps: &[Episode]) -> (r: bool)
    ensures
        r == film_layout_spec(crate::catalog::opt_view(*title_type), eps@.map_values(|e: Episode| e.name@)),
{
    let is_film_type = match title_type {
        Some(t) => str_eq(t.as_str(), "movie"),
        None => false,
    };
    if is_film_type {
        return true;
    }
    if eps.len() == 1 {
        contains_text(eps[0].name.as_str(), "Filmi")
    } else {
        false
    }
}

/// Whether key `key_name` (with Ctrl held or not) starts the quick search
/// under shortcut `shortcut`: Ctrl+F, Ctrl+K, F3, or else the slash key.
pub open spec fn shortcut_triggered_spec(shortcut: Seq<char>, key_name: Seq<char>, ctrl: bool) -> bool {
    if shortcut == "Ctrl+F"@ {
        ctrl && (key_name == "f"@ || key_name == "F"@)
    } else if shortcut == "Ctrl+K"@ {
        ctrl && (key_name == "k"@ || key_name == "K"@)
    } else if shortcut == "F3"@ {
        key_name == "F3"@
    } else {
        key_name == "slash"@ || key_name == "kp_divide"@
    }
}

/// Decides whether a key press starts the quick search.
pub fn shortcut_triggered(shortcut: &str, key_name: &str, ctrl: bool) -> (r: bool)
    ensures
        r == shortcut_triggered_spec(shortcut@, key_name@, ctrl),
{
    if str_eq(shortcut, "Ctrl+F") {
        ctrl && (str_eq(key_name, "f") || str_eq(key_name, "F"))
    } else if str_eq(shortcut, "Ctrl+K") {
        ctrl && (str_eq(key_name, "k") || str_eq(key_name, "K"))
    } else if str_eq(shortcut, "F3") {
        str_eq(key_name, "F3")
    } else {
        str_eq(key_name, "slash") || str_eq(key_name, "kp_divide")
    }
}

/// The search as typed, trimmed and lowercased.
pub fn episode_query(text: &str) -> (r: String)
    ensures
        r@ == lowercase(trim(text@)),
{
    let v = chars_of(text);
    let (a, b) = trim_bounds(&v, 0, v.len());
    assert(v@.subrange(0, v@.len() as int) =~= v@);
    let t = string_from(&sub_vec(&v, a, b));
    to_lowercase(t.as_str())
}

/// Whether an episode stays shown for query `q` (already trimmed and
/// lowercased): every episode for an empty query; else one whose lowercased
/// name contains the query, or whose number matches it as "{n}", "e{n}" or
/// "s{season:02}e{n:02}".
pub open spec fn episode_visible_spec(q: Seq<char>, season: u64, episode: u64, name: Seq<char>) -> bool {
    q.len() == 0
        || contains_sub(lowercase(name), q)
        || decimal(episode as nat) == q
        || "e"@ + decimal(episode as nat) == q
        || "s"@ + decimal2(season as nat) + "e"@ + decimal2(episode as nat) == q
}

/// Filters an episode row by the quick search.
pub fn episode_visible(q: &str, e: &Episode) -> (r: bool)
    ensures
        r == episode_visible_spec(q@, e.season, e.episode, e.name@),
{
    let qv = chars_of(q);
    if qv.len() == 0 {
        return true;
    }
    let lower = to_lowercase(e.name.as_str());
    if contains_text(lower.as_str(), q) {
        return true;
    }
    let n = u64_decimal(e.episode);
    if chars_eq(&n, &qv) {
        return true;
    }
    let mut en = chars_of("e");
    extend_chars(&mut en, &n);
    if chars_eq(&en, &qv) {
        return true;
    }
    let mut se = chars_of("s");
    let s2 = u64_decimal2(e.season);
    extend_chars(&mut se, &s2);
    extend_str(&mut se, "e");
    let e2 = u64_decimal2(e.episode);
    extend_chars(&mut se, &e2);
    chars_eq(&se, &qv)
}

/// The placeholder of the quick search box, naming its shortcut.
pub fn search_placeholder(shortcut: &str) -> (r: String)
    ensures
        r@ == "Bölüm numarası veya adı ara… ("@ + shortcut@ + ")"@,
{
    let mut v = chars_of("Bölüm numarası veya adı ara… (");
    extend_str(&mut v, shortcut);
    extend_str(&mut v, ")");
    string_from(&v)
}

/// The title line of an episode row: "S{:02} E{:02}   {name}".
pub fn episode_row_title(season: u64, episode: u64, name: &str) -> (r: String)
    ensures
        r@ == "S"@ + decimal2(season as nat) + " E"@ + decimal2(episode as nat) + "   "@ + name@,
{
    let mut v = chars_of("S");
    let s = u64_decimal2(season);
    extend_chars(&mut v, &s);
    extend_str(&mut v, " E");
    let e = u64_decimal2(episode);
    extend_chars(&mut v, &e);
    extend_str(&mut v, "   ");
    extend_str(&mut v, name);
    string_from(&v)
}

/// The entry of an episode's context menu.
pub fn watched_menu_label(watched: bool) -> (r: &'static str)
    ensures
        r@ == if watched { "✖ İzlenmedi Olarak İşaretle"@ } else { "✅ İzlendi Olarak İşaretle"@ },
{
    if watched { "✖ İzlenmedi Olarak İşaretle" } else { "✅ İzlendi Olarak İşaretle" }
}

/// The notice after the menu entry toggled an episode that was (or was not)
/// watched.
pub fn watched_toast(was_watched: bool) -> (r: &'static str)
    ensures
        r@ == if was_watched { "✖ İzlenmedi olarak işaretlendi"@ } else { "✅ İzlendi olarak işaretlendi"@ },
{
    if was_watched { "✖ İzlenmedi olarak işaretlendi" } else { "✅ İzlendi olarak işaretlendi" }
}

/// The favourite button: its icon and tooltip.
pub fn bookmark_look(saved: bool) -> (r: (&'static str, &'static str))
    ensures
        r.0@ == if saved { "starred-symbolic"@ } else { "non-starred-symbolic"@ },
        r.1@ == if saved { "Favorilerden Çıkar"@ } else { "Favorilere Ekle"@ },
{
    if saved {
        ("starred-symbolic", "Favorilerden Çıkar")
    } else {
        ("non-starred-symbolic", "Favorilere Ekle")
    }
}

/// The marathon button: its icon and tooltip.
pub fn marathon_look(added: bool) -> (r: (&'static str, &'static str))
    ensures
        r.0@ == if added { "media-playlist-repeat-symbolic"@ } else { "flag-symbolic"@ },
        r.1@ == if added { "Maratondan Çıkar"@ } else { "İzleme Maratonuna Ekle"@ },
{
    if added {
        ("media-playlist-repeat-symbolic", "Maratondan Çıkar")
    } else {
        ("flag-symbolic", "İzleme Maratonuna Ekle")
    }
}

/// The notice after the marathon button added (or removed) a title.
pub fn marathon_toast(added: bool) -> (r: &'static str)
    ensures
        r@ == if added { "🏆 İzleme Maratonuna eklendi!"@ } else { "İzleme Maratonundan çıkarıldı"@ },
{
    if added { "🏆 İzleme Maratonuna eklendi!" } else { "İzleme Maratonundan çıkarıldı" }
}


/// The description shown under a title: trimmed; none when blank or
/// missing.
pub fn shown_description(desc: &Option<String>) -> (r: Option<String>)
    ensures
        match *desc {
            Some(d) => if trim(d@).len() > 0 { r matches Some(x) && x@ == trim(d@) } else { r is None },
            None => r is None,
        },
{
    match desc {
        Some(d) => {
            let v = chars_of(d.as_str());
            let (a, b) = trim_bounds(&v, 0, v.len());
            assert(v@.subrange(0, v@.len() as int) =~= v@);
            if a == b {
                None
            } else {
                Some(string_from(&sub_vec(&v, a, b)))
            }
        },
        None => None,
    }
}

/// The count line of the source picker: "{n} kaynak bulundu".
pub fn source_count_text(n: usize) -> (r: String)
    ensures
        r@ == decimal(n as nat) + " kaynak bulundu"@,
{
    let mut v = u64_decimal(n as u64);
    extend_str(&mut v, " kaynak bulundu");
    string_from(&v)
}

/// The count line of the fansub picker.
pub fn fansub_count_text(n: usize) -> (r: String)
    ensures
        r@ == if n == 0 { "Çeviri bulunamadı"@ } else { decimal(n as nat) + " çeviri mevcut"@ },
{
    if n == 0 {
        return string_from(&chars_of("Çeviri bulunamadı"));
    }
    let mut v = u64_decimal(n as u64);
    extend_str(&mut v, " çeviri mevcut");
    string_from(&v)
}

/// The votes badge of a source, shown for positive votes only.
pub fn votes_badge(votes: i64) -> (r: Option<String>)
    ensures
        votes > 0 ==> (r matches Some(t) && t@ == "👍 "@ + decimal(votes as nat)),
        votes <= 0 ==> r is None,
{
    if votes > 0 {
        let mut v = chars_of("👍 ");
        let d = u64_decimal(votes as u64);
        extend_chars(&mut v, &d);
        Some(string_from(&v))
    } else {
        None
    }
}

/// The tip that introduces the quick search shortcut.
pub fn quick_search_tip(shortcut: &str) -> (r: String)
    ensures
        r@ == "Klavyeden '"@ + shortcut@ + "' kısayoluna basarak bölüm listesinde hızlıca arama yapabilirsiniz."@,
{
    let mut v = chars_of("Klavyeden '");
    extend_str(&mut v, shortcut);
    extend_str(&mut v, "' kısayoluna basarak bölüm listesinde hızlıca arama yapabilirsiniz.");
    string_from(&v)
}

/// The progress line of a film page, in whole seconds: "İzlendi: {pos} / {dur}".
pub fn watched_progress_label(pos: u64, dur: u64) -> (r: String)
    ensures
        r@ == "İzlendi: "@ + crate::playback::clock_spec(pos as nat) + " / "@ + crate::playback::clock_spec(dur as nat),
{
    let mut v = chars_of("İzlendi: ");
    let a = crate::playback::clock_text(pos);
    extend_str(&mut v, a.as_str());
    extend_str(&mut v, " / ");
    let b = crate::playback::clock_text(dur);
    extend_str(&mut v, b.as_str());
    string_from(&v)
}

} // verus!
