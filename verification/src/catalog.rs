//! Catalogue entries (titles, episodes, categories) and the text shown for
//! them: display name, translated genre line, detail badges and meta line.

use vstd::prelude::*;
use crate::text::{
    chars_eq, chars_of, clone_opt_string, extend_chars, extend_str, i64_decimal, int_decimal, join, join_vecs, owned,
    parse_i64_in, parse_i64_spec, pieces, split_bounds, split_on, string_from, trim, trim_bounds,
};

verus! {

/// A title (anime, series or film) of the catalogue.
#[derive(Clone, Debug)]
pub struct Title {
    pub id: u64,
    pub name: String,
    pub year: Option<i64>,
    pub title_type: Option<String>,
    pub poster: Option<String>,
    pub description: Option<String>,
    pub season_count: Option<i64>,
    /// Genre display names.
    pub genres: Option<Vec<String>>,
    /// Length of an episode, in minutes.
    pub runtime: Option<i64>,
    pub episode_count: Option<i64>,
    /// Release date as `YYYY-MM-DD`.
    pub release_date: Option<String>,
}

impl Default for Title {
    fn default() -> (r: Self)
        ensures
            r.id == 0,
            r.name@ == Seq::<char>::empty(),
            r.year is None && r.title_type is None && r.poster is None && r.description is None,
            r.season_count is None && r.genres is None && r.runtime is None,
            r.episode_count is None && r.release_date is None,
    {
        Title {
            id: 0,
            name: String::new(),
            year: None,
            title_type: None,
            poster: None,
            description: None,
            season_count: None,
            genres: None,
            runtime: None,
            episode_count: None,
            release_date: None,
        }
    }
}

/// A copy of a list of strings.
pub fn clone_strings(v: &Vec<String>) -> (r: Vec<String>)
    ensures
        r@ == v@,
{
    let mut out: Vec<String> = Vec::new();
    let mut i: usize = 0;
    while i < v.len()
        invariant
            i <= v.len(),
            out@ == v@.take(i as int),
        decreases v.len() - i,
    {
        out.push(v[i].clone());
        assert(out@ =~= v@.take(i as int + 1));
        i = i + 1;
    }
    assert(v@.take(v.len() as int) =~= v@);
    out
}

/// A title seen as plain values.
pub struct TitleView {
    pub id: u64,
    pub name: Seq<char>,
    pub year: Option<i64>,
    pub title_type: Option<Seq<char>>,
    pub poster: Option<Seq<char>>,
    pub description: Option<Seq<char>>,
    pub season_count: Option<i64>,
    pub genres: Option<Seq<Seq<char>>>,
    pub runtime: Option<i64>,
    pub episode_count: Option<i64>,
    pub release_date: Option<Seq<char>>,
}

/// The text of an optional string.
pub open spec fn opt_view(o: Option<String>) -> Option<Seq<char>> {
    match o {
        Some(s) => Some(s@),
        None => None,
    }
}

impl View for Title {
    type V = TitleView;

    open spec fn view(&self) -> TitleView {
        TitleView {
            id: self.id,
            name: self.name@,
            year: self.year,
            title_type: opt_view(self.title_type),
            poster: opt_view(self.poster),
            description: opt_view(self.description),
            season_count: self.season_count,
            genres: genre_views(self),
            runtime: self.runtime,
            episode_count: self.episode_count,
            release_date: opt_view(self.release_date),
        }
    }
}

impl Title {
    /// A field-for-field copy of the title.
    pub fn copy(&self) -> (r: Title)
        ensures
            r@ == self@,
    {
        Title {
            id: self.id,
            name: self.name.clone(),
            year: self.year,
            title_type: clone_opt_string(&self.title_type),
            poster: clone_opt_string(&self.poster),
            description: clone_opt_string(&self.description),
            season_count: self.season_count,
            genres: match &self.genres {
                Some(g) => Some(clone_strings(g)),
                None => None,
            },
            runtime: self.runtime,
            episode_count: self.episode_count,
            release_date: clone_opt_string(&self.release_date),
        }
    }
}

/// A named row of titles on the home page.
#[derive(Clone, Debug)]
pub struct Category {
    pub name: String,
    pub items: Vec<Title>,
}

/// One episode of a title.
#[derive(Clone, Debug)]
pub struct Episode {
    pub episode: u64,
    pub season: u64,
    pub name: String,
}

/// An episode seen as plain values.
pub struct EpisodeView {
    pub episode: u64,
    pub season: u64,
    pub name: Seq<char>,
}

impl View for Episode {
    type V = EpisodeView;

    open spec fn view(&self) -> EpisodeView {
        EpisodeView { episode: self.episode, season: self.season, name: self.name@ }
    }
}

impl Episode {
    /// A field-for-field copy of the episode.
    pub fn copy(&self) -> (r: Episode)
        ensures
            r@ == self@,
    {
        Episode { episode: self.episode, season: self.season, name: self.name.clone() }
    }
}

/// `str::to_lowercase` of a text: what the Unicode lowercase mapping gives.
pub uninterp spec fn lowercase(s: Seq<char>) -> Seq<char>;

/// Lowercases a text with std's `str::to_lowercase` (full Unicode case
/// mapping); its result is the name `lowercase` of the text.
#[verifier::external_body]
pub(crate) fn to_lowercase(s: &str) -> (r: String)
    ensures
        r@ == lowercase(s@),
{
    s.to_lowercase()
}

/// Turkish names of the genre names the catalogue uses, keyed by their
/// lowercase English (or Turkish) form.
pub open spec fn genre_table(k: Seq<char>) -> Option<Seq<char>> {
    if k == "drama"@ {
        Some("Dram"@)
    } else if k == "animation"@ {
        Some("Animasyon"@)
    } else if k == "animasyon"@ {
        Some("Animasyon"@)
    } else if k == "comedy"@ {
        Some("Komedi"@)
    } else if k == "documentary"@ {
        Some("Belgesel"@)
    } else if k == "family"@ {
        Some("Aile"@)
    } else if k == "kids"@ {
        Some("Çocuk"@)
    } else if k == "news"@ {
        Some("Haber"@)
    } else if k == "reality"@ {
        Some("Gerçeklik"@)
    } else if k == "soap"@ {
        Some("Pembe Dizi"@)
    } else if k == "talk"@ {
        Some("Talk Show"@)
    } else if k == "war & politics"@ {
        Some("Savaş & Politika"@)
    } else if k == "western"@ {
        Some("Western"@)
    } else if k == "crime"@ {
        Some("Suç"@)
    } else if k == "mystery"@ {
        Some("Gizem"@)
    } else if k == "thriller"@ {
        Some("Gerilim"@)
    } else if k == "horror"@ {
        Some("Korku"@)
    } else if k == "romance"@ {
        Some("Romantik"@)
    } else if k == "music"@ {
        Some("Müzik"@)
    } else if k == "war"@ {
        Some("Savaş"@)
    } else if k == "fantasy"@ {
        Some("Fantezi"@)
    } else if k == "science fiction"@ {
        Some("Bilim Kurgu"@)
    } else if k == "sci-fi & fantasy"@ {
        Some("Bilim Kurgu & Fantezi"@)
    } else if k == "sci-fi"@ {
        Some("Bilim Kurgu"@)
    } else if k == "action & adventure"@ {
        Some("Aksiyon & Macera"@)
    } else if k == "action"@ {
        Some("Aksiyon"@)
    } else if k == "adventure"@ {
        Some("Macera"@)
    } else {
        None
    }
}

fn genre_lookup(k: &Vec<char>) -> (r: Option<String>)
    ensures
        match r {
            Some(t) => genre_table(k@) == Some(t@),
            None => genre_table(k@) is None,
        },
{
    if chars_eq(k, &chars_of("drama")) {
        Some(owned("Dram"))
    } else if chars_eq(k, &chars_of("animation")) {
        Some(owned("Animasyon"))
    } else if chars_eq(k, &chars_of("animasyon")) {
        Some(owned("Animasyon"))
    } else if chars_eq(k, &chars_of("comedy")) {
        Some(owned("Komedi"))
    } else if chars_eq(k, &chars_of("documentary")) {
        Some(owned("Belgesel"))
    } else if chars_eq(k, &chars_of("family")) {
        Some(owned("Aile"))
    } else if chars_eq(k, &chars_of("kids")) {
        Some(owned("Çocuk"))
    } else if chars_eq(k, &chars_of("news")) {
        Some(owned("Haber"))
    } else if chars_eq(k, &chars_of("reality")) {
        Some(owned("Gerçeklik"))
    } else if chars_eq(k, &chars_of("soap")) {
        Some(owned("Pembe Dizi"))
    } else if chars_eq(k, &chars_of("talk")) {
        Some(owned("Talk Show"))
    } else if chars_eq(k, &chars_of("war & politics")) {
        Some(owned("Savaş & Politika"))
    } else if chars_eq(k, &chars_of("western")) {
        Some(owned("Western"))
    } else if chars_eq(k, &chars_of("crime")) {
        Some(owned("Suç"))
    } else if chars_eq(k, &chars_of("mystery")) {
        Some(owned("Gizem"))
    } else if chars_eq(k, &chars_of("thriller")) {
        Some(owned("Gerilim"))
    } else if chars_eq(k, &chars_of("horror")) {
        Some(owned("Korku"))
    } else if chars_eq(k, &chars_of("romance")) {
        Some(owned("Romantik"))
    } else if chars_eq(k, &chars_of("music")) {
        Some(owned("Müzik"))
    } else if chars_eq(k, &chars_of("war")) {
        Some(owned("Savaş"))
    } else if chars_eq(k, &chars_of("fantasy")) {
        Some(owned("Fantezi"))
    } else if chars_eq(k, &chars_of("science fiction")) {
        Some(owned("Bilim Kurgu"))
    } else if chars_eq(k, &chars_of("sci-fi & fantasy")) {
        Some(owned("Bilim Kurgu & Fantezi"))
    } else if chars_eq(k, &chars_of("sci-fi")) {
        Some(owned("Bilim Kurgu"))
    } else if chars_eq(k, &chars_of("action & adventure")) {
        Some(owned("Aksiyon & Macera"))
    } else if chars_eq(k, &chars_of("action")) {
        Some(owned("Aksiyon"))
    } else if chars_eq(k, &chars_of("adventure")) {
        Some(owned("Macera"))
    } else {
        None
    }
}

/// A genre name in Turkish: the table entry of its trimmed lowercase form,
/// or the name unchanged when the table has none.
pub open spec fn tr_genre_spec(s: Seq<char>) -> Seq<char> {
    match genre_table(lowercase(trim(s))) {
        Some(t) => t,
        None => s,
    }
}

/// Translates a genre name (unknown names come back unchanged).
pub fn tr_genre(s: &str) -> (r: String)
    ensures
        r@ == tr_genre_spec(s@),
{
    let v = chars_of(s);
    let (a, b) = trim_bounds(&v, 0, v.len());
    assert(v@.subrange(0, v@.len() as int) =~= v@);
    let mut t: Vec<char> = Vec::new();
    let mut k = a;
    while k < b
        invariant
            a <= k <= b <= v.len(),
            t@ == v@.subrange(a as int, k as int),
        decreases b - k,
    {
        t.push(v[k]);
        assert(t@ =~= v@.subrange(a as int, k + 1));
        k = k + 1;
    }
    let trimmed = string_from(&t);
    let lower = to_lowercase(trimmed.as_str());
    let lv = chars_of(lower.as_str());
    match genre_lookup(&lv) {
        Some(tr) => tr,
        None => owned(s),
    }
}

/// The genre names without the "Animasyon" entries.
pub open spec fn drop_animation(s: Seq<Seq<char>>) -> Seq<Seq<char>>
    decreases s.len(),
{
    if s.len() == 0 {
        Seq::empty()
    } else if s.last() == "Animasyon"@ {
        drop_animation(s.drop_last())
    } else {
        drop_animation(s.drop_last()).push(s.last())
    }
}

/// `s` with runs of equal neighbours collapsed (`Vec::dedup`).
pub open spec fn dedup(s: Seq<Seq<char>>) -> Seq<Seq<char>>
    decreases s.len(),
{
    if s.len() == 0 {
        Seq::empty()
    } else {
        let p = dedup(s.drop_last());
        if p.len() > 0 && p.last() == s.last() {
            p
        } else {
            p.push(s.last())
        }
    }
}

/// The separator of the meta and genre lines.
pub open spec fn dot_sep() -> Seq<char> {
    "  •  "@
}

/// The genre line: translated genres without "Animasyon", neighbouring
/// repeats collapsed, joined with `  •  `; nothing when no genre is left.
pub open spec fn genre_line_spec(genres: Option<Seq<Seq<char>>>) -> Option<Seq<char>> {
    match genres {
        None => None,
        Some(g) => {
            let parts = dedup(drop_animation(g.map_values(|x: Seq<char>| tr_genre_spec(x))));
            if parts.len() == 0 {
                None
            } else {
                Some(join(parts, dot_sep()))
            }
        },
    }
}

/// The genres of a title as texts.
pub open spec fn genre_views(t: &Title) -> Option<Seq<Seq<char>>> {
    match t.genres {
        Some(g) => Some(g@.map_values(|x: String| x@)),
        None => None,
    }
}

/// `D/M/YYYY` for a `YYYY-MM-DD` date: exactly three `-`-separated parts,
/// each read as an `i64`, printed without leading zeros.
pub open spec fn fmt_release_date_spec(s: Seq<char>) -> Option<Seq<char>> {
    let p = split_on(s, '-');
    if p.len() == 3 {
        match (parse_i64_spec(p[0]), parse_i64_spec(p[1]), parse_i64_spec(p[2])) {
            (Some(y), Some(m), Some(d)) => Some(
                int_decimal(d as int) + "/"@ + int_decimal(m as int) + "/"@ + int_decimal(y as int),
            ),
            _ => None,
        }
    } else {
        None
    }
}

/// Reformats a release date `YYYY-MM-DD` as `D/M/YYYY`.
pub fn fmt_release_date(s: &str) -> (r: Option<Vec<char>>)
    ensures
        match r {
            Some(v) => fmt_release_date_spec(s@) == Some(v@),
            None => fmt_release_date_spec(s@) is None,
        },
{
    let v = chars_of(s);
    let b = split_bounds(&v, 0, '-');
    assert(v@.subrange(0, v@.len() as int) =~= v@);
    if b.len() != 3 {
        return None;
    }
    let ghost p = pieces(v@, b@);
    assert(p[0] == v@.subrange(b@[0].0 as int, b@[0].1 as int));
    assert(p[1] == v@.subrange(b@[1].0 as int, b@[1].1 as int));
    assert(p[2] == v@.subrange(b@[2].0 as int, b@[2].1 as int));
    let y = parse_i64_in(&v, b[0].0, b[0].1);
    let m = parse_i64_in(&v, b[1].0, b[1].1);
    let d = parse_i64_in(&v, b[2].0, b[2].1);
    match (y, m, d) {
        (Some(y), Some(m), Some(d)) => {
            let mut out = i64_decimal(d);
            extend_str(&mut out, "/");
            let mv = i64_decimal(m);
            extend_chars(&mut out, &mv);
            extend_str(&mut out, "/");
            let yv = i64_decimal(y);
            extend_chars(&mut out, &yv);
            Some(out)
        },
        _ => None,
    }
}

/// The detail badges of a title: `N dakika` for a positive runtime; `N
/// bölüm` for a positive episode count, else `Film` for a film; `Yayın: D/M/YYYY`
/// for a readable release date.
pub open spec fn detail_facts_spec(t: &Title) -> Seq<Seq<char>> {
    let a: Seq<Seq<char>> = match t.runtime {
        Some(rt) if rt > 0 => seq![int_decimal(rt as int) + " dakika"@],
        _ => Seq::empty(),
    };
    let b: Seq<Seq<char>> = match t.episode_count {
        Some(ec) if ec > 0 => seq![int_decimal(ec as int) + " bölüm"@],
        _ => if (match t.title_type { Some(tt) => tt@ == "movie"@, None => false }) {
            seq!["Film"@]
        } else {
            Seq::empty()
        },
    };
    let c: Seq<Seq<char>> = match t.release_date {
        Some(rd) => match fmt_release_date_spec(rd@) {
            Some(d) => seq!["Yayın: "@ + d],
            None => Seq::empty(),
        },
        None => Seq::empty(),
    };
    a + b + c
}

/// The label of a title type on a card.
pub open spec fn type_label(tt: Seq<char>) -> Seq<char> {
    if tt == "anime"@ {
        "Anime Serisi"@
    } else if tt == "movie"@ {
        "Film"@
    } else {
        "Dizi"@
    }
}

/// The card meta line: year, type label and `N Sezon`, those that are
/// known, joined with `  •  `.
pub open spec fn meta_line_spec(t: &Title) -> Seq<char> {
    let a: Seq<Seq<char>> = match t.year {
        Some(y) => seq![int_decimal(y as int)],
        None => Seq::empty(),
    };
    let b: Seq<Seq<char>> = match t.title_type {
        Some(tt) => seq![type_label(tt@)],
        None => Seq::empty(),
    };
    let c: Seq<Seq<char>> = match t.season_count {
        Some(s) => seq![int_decimal(s as int) + " Sezon"@],
        None => Seq::empty(),
    };
    join(a + b + c, dot_sep())
}

/// The heading of a title: `Name (YEAR)`, or the name alone.
pub open spec fn display_name_spec(t: &Title) -> Seq<char> {
    match t.year {
        Some(y) => t.name@ + " ("@ + int_decimal(y as int) + ")"@,
        None => t.name@,
    }
}

impl Title {
    /// `Name (YEAR)`, or only the name when the year is unknown.
    pub fn display_name(&self) -> (r: String)
        ensures
            r@ == display_name_spec(self),
    {
        match self.year {
            Some(y) => {
                let mut out = chars_of(self.name.as_str());
                extend_str(&mut out, " (");
                let yv = i64_decimal(y);
                extend_chars(&mut out, &yv);
                extend_str(&mut out, ")");
                string_from(&out)
            },
            None => self.name.clone(),
        }
    }

    /// The translated genre line (`None` without genres or when only
    /// "Animasyon" was listed).
    pub fn genre_line(&self) -> (r: Option<String>)
        ensures
            match r {
                Some(s) => genre_line_spec(genre_views(self)) == Some(s@),
                None => genre_line_spec(genre_views(self)) is None,
            },
    {
        let gens = match &self.genres {
            Some(g) => g,
            None => return None,
        };
        let ghost gv = gens@.map_values(|x: String| x@);
        let ghost tr = gv.map_values(|x: Seq<char>| tr_genre_spec(x));
        let mut parts: Vec<Vec<char>> = Vec::new();
        let mut i: usize = 0;
        while i < gens.len()
            invariant
                i <= gens.len(),
                gv == gens@.map_values(|x: String| x@),
                tr == gv.map_values(|x: Seq<char>| tr_genre_spec(x)),
                parts@.map_values(|p: Vec<char>| p@) == dedup(drop_animation(tr.take(i as int))),
            decreases gens.len() - i,
        {
            let g = tr_genre(gens[i].as_str());
            let gc = chars_of(g.as_str());
            let anim = chars_of("Animasyon");
            assert(tr.take(i as int + 1).drop_last() =~= tr.take(i as int));
            assert(tr.take(i as int + 1).last() == gc@);
            let ghost prev = drop_animation(tr.take(i as int));
            if chars_eq(&gc, &anim) {
                assert(drop_animation(tr.take(i as int + 1)) == prev);
            } else {
                assert(drop_animation(tr.take(i as int + 1)) == prev.push(gc@));
                assert(prev.push(gc@).drop_last() =~= prev);
                let n = parts.len();
                if n > 0 && chars_eq(&parts[n - 1], &gc) {
                    assert(parts@.map_values(|p: Vec<char>| p@).last() == gc@);
                } else {
                    parts.push(gc);
                    assert(parts@.map_values(|p: Vec<char>| p@) =~= dedup(prev).push(gc@));
                }
            }
            i = i + 1;
        }
        assert(tr.take(gens.len() as int) =~= tr);
        if parts.len() == 0 {
            None
        } else {
            let line = join_vecs(&parts, "  •  ");
            Some(string_from(&line))
        }
    }

    /// Badges for the detail card: runtime, episode count (or "Film") and
    /// release date, those that are known.
    pub fn detail_facts(&self) -> (r: Vec<String>)
        ensures
            r@.map_values(|s: String| s@) == detail_facts_spec(self),
    {
        let mut facts: Vec<String> = Vec::new();
        if let Some(rt) = self.runtime {
            if rt > 0 {
                let mut v = i64_decimal(rt);
                extend_str(&mut v, " dakika");
                facts.push(string_from(&v));
            }
        }
        let ghost fa = facts@.map_values(|s: String| s@);
        let is_movie = match &self.title_type {
            Some(tt) => {
                let tv = chars_of(tt.as_str());
                let mv = chars_of("movie");
                chars_eq(&tv, &mv)
            },
            None => false,
        };
        match self.episode_count {
            Some(ec) if ec > 0 => {
                let mut v = i64_decimal(ec);
                extend_str(&mut v, " bölüm");
                facts.push(string_from(&v));
            },
            _ => {
                if is_movie {
                    facts.push(owned("Film"));
                }
            },
        }
        let ghost fb = facts@.map_values(|s: String| s@);
        if let Some(rd) = &self.release_date {
            if let Some(d) = fmt_release_date(rd.as_str()) {
                let mut v: Vec<char> = Vec::new();
                extend_str(&mut v, "Yayın: ");
                extend_chars(&mut v, &d);
                facts.push(string_from(&v));
            }
        }
        assert(facts@.map_values(|s: String| s@) =~= detail_facts_spec(self));
        facts
    }

    /// The shared card meta line `YEAR  •  TYPE  •  N Sezon` (known parts only),
    /// the same for marathon and favourites cards.
    pub fn meta_line(&self) -> (r: String)
        ensures
            r@ == meta_line_spec(self),
    {
        let mut parts: Vec<Vec<char>> = Vec::new();
        if let Some(y) = self.year {
            parts.push(i64_decimal(y));
        }
        if let Some(tt) = &self.title_type {
            let tv = chars_of(tt.as_str());
            let label = if chars_eq(&tv, &chars_of("anime")) {
                chars_of("Anime Serisi")
            } else if chars_eq(&tv, &chars_of("movie")) {
                chars_of("Film")
            } else {
                chars_of("Dizi")
            };
            parts.push(label);
        }
        if let Some(s) = self.season_count {
            let mut v = i64_decimal(s);
            extend_str(&mut v, " Sezon");
            parts.push(v);
        }
        let line = join_vecs(&parts, "  •  ");
        proof {
            let a: Seq<Seq<char>> = match self.year { Some(y) => seq![int_decimal(y as int)], None => Seq::empty() };
            let b: Seq<Seq<char>> = match &self.title_type { Some(tt) => seq![type_label(tt@)], None => Seq::empty() };
            let c: Seq<Seq<char>> = match self.season_count { Some(s) => seq![int_decimal(s as int) + " Sezon"@], None => Seq::empty() };
            assert(parts@.map_values(|p: Vec<char>| p@) =~= a + b + c);
        }
        string_from(&line)
    }
}


/// A title holds the catalogue details (genres, runtime or release date).
pub open spec fn has_details_spec(t: TitleView) -> bool {
    t.genres is Some || t.runtime is Some || t.release_date is Some
}

/// A title needs no filling in: it has a name, a type, a year and a season count.
pub open spec fn is_complete_spec(t: TitleView) -> bool {
    t.name.len() > 0 && t.title_type is Some && t.year is Some && t.season_count is Some
}

/// `a` unless it is missing, then `b`.
pub open spec fn or_else<T>(a: Option<T>, b: Option<T>) -> Option<T> {
    match a {
        Some(x) => Some(x),
        None => b,
    }
}

/// The title with its missing poster, type, year, season count and
/// description taken from `src`, and the name too when it was empty.
pub open spec fn filled(t: TitleView, src: TitleView) -> TitleView {
    TitleView {
        name: if t.name.len() == 0 { src.name } else { t.name },
        poster: or_else(t.poster, src.poster),
        title_type: or_else(t.title_type, src.title_type),
        year: or_else(t.year, src.year),
        season_count: or_else(t.season_count, src.season_count),
        description: or_else(t.description, src.description),
        ..t
    }
}

/// Index of the first title with id `id` in the lists, in list order.
pub open spec fn listed_index(cats: Seq<Seq<TitleView>>, id: u64) -> Option<(int, int)>
    decreases cats.len(),
{
    if cats.len() == 0 {
        None
    } else {
        match listed_index(cats.drop_last(), id) {
            Some(p) => Some(p),
            None => match first_id(cats.last(), id) {
                Some(j) => Some((cats.len() - 1, j)),
                None => None,
            },
        }
    }
}

/// Index of the first title with id `id`.
pub open spec fn first_id(items: Seq<TitleView>, id: u64) -> Option<int>
    decreases items.len(),
{
    if items.len() == 0 {
        None
    } else {
        match first_id(items.drop_last(), id) {
            Some(j) => Some(j),
            None => if items.last().id == id { Some(items.len() - 1) } else { None },
        }
    }
}

pub open spec fn cat_views(cats: Seq<Category>) -> Seq<Seq<TitleView>> {
    cats.map_values(|c: Category| c.items@.map_values(|t: Title| t@))
}

fn or_else_string(a: &Option<String>, b: &Option<String>) -> (r: Option<String>)
    ensures
        opt_view(r) == or_else(opt_view(*a), opt_view(*b)),
{
    match a {
        Some(x) => Some(x.clone()),
        None => clone_opt_string(b),
    }
}

impl Title {
    /// Whether the title already holds catalogue details.
    pub fn has_details(&self) -> (r: bool)
        ensures
            r == has_details_spec(self@),
    {
        self.genres.is_some() || self.runtime.is_some() || self.release_date.is_some()
    }

    /// Whether the title needs no filling in.
    pub fn is_complete(&self) -> (r: bool)
        ensures
            r == is_complete_spec(self@),
    {
        !self.name.as_str().is_empty() && self.title_type.is_some() && self.year.is_some() && self.season_count.is_some()
    }

    /// Fills the missing parts from the cached listing of the same title;
    /// returns whether the title changed.
    pub fn fill_from_cache(&mut self, src: &Title) -> (r: bool)
        ensures
            final(self)@ == filled(old(self)@, src@),
            r == (final(self)@ != old(self)@),
    {
        let changed = (self.name.as_str().is_empty() && !src.name.as_str().is_empty())
            || (self.poster.is_none() && src.poster.is_some())
            || (self.title_type.is_none() && src.title_type.is_some())
            || (self.year.is_none() && src.year.is_some())
            || (self.season_count.is_none() && src.season_count.is_some())
            || (self.description.is_none() && src.description.is_some());
        let ghost before = self@;
        if self.name.as_str().is_empty() {
            self.name = src.name.clone();
        }
        self.poster = or_else_string(&self.poster, &src.poster);
        self.title_type = or_else_string(&self.title_type, &src.title_type);
        if self.year.is_none() {
            self.year = src.year;
        }
        if self.season_count.is_none() {
            self.season_count = src.season_count;
        }
        self.description = or_else_string(&self.description, &src.description);
        proof {
            if !changed {
                assert(self@.name =~= before.name);
                assert(self@ == before);
            } else {
                if before.name.len() == 0 && src@.name.len() > 0 {
                    assert(self@.name.len() != before.name.len());
                }
                assert(self@ != before);
            }
        }
        changed
    }

    /// Fills a nameless title from the search result with its id: the
    /// name, and the other parts that are missing.
    pub fn fill_from_search(&mut self, src: &Title)
        ensures
            final(self)@ == (TitleView { name: src@.name, ..filled(old(self)@, src@) }),
    {
        self.name = src.name.clone();
        self.poster = or_else_string(&self.poster, &src.poster);
        self.title_type = or_else_string(&self.title_type, &src.title_type);
        if self.year.is_none() {
            self.year = src.year;
        }
        if self.season_count.is_none() {
            self.season_count = src.season_count;
        }
        self.description = or_else_string(&self.description, &src.description);
    }
}

/// An optional title as its view.
pub open spec fn title_opt(o: Option<Title>) -> Option<TitleView> {
    match o {
        Some(t) => Some(t@),
        None => None,
    }
}

/// A title after filling it in: unchanged when it is complete; else from
/// its cached listing when there is one; else, for a nameless title, from
/// the search result with its id (the name taken from it).
pub open spec fn hydrate_spec(t: TitleView, cached: Option<TitleView>, searched: Option<TitleView>) -> TitleView {
    if is_complete_spec(t) {
        t
    } else {
        match cached {
            Some(c) => filled(t, c),
            None => if t.name.len() == 0 {
                match searched {
                    Some(s) => TitleView { name: s.name, ..filled(t, s) },
                    None => t,
                }
            } else {
                t
            },
        }
    }
}

/// Whether filling a title in asks the network: it is not complete, it is
/// not in the cached lists, and it has no name.
pub fn search_needed(t: &Title, cached: &Option<Title>) -> (r: bool)
    ensures
        r == (!is_complete_spec(t@) && cached is None && t@.name.len() == 0),
{
    !t.is_complete() && cached.is_none() && t.name.as_str().is_empty()
}

/// Fills in a title that lost its details from its cached listing, or else
/// from the search result with its id (`searched` is only looked at when
/// `search_needed` said so); returns whether the title changed.
pub fn hydrate_title(t: &mut Title, cached: Option<Title>, searched: Option<Title>) -> (r: bool)
    ensures
        final(t)@ == hydrate_spec(old(t)@, title_opt(cached), title_opt(searched)),
        r == (final(t)@ != old(t)@),
{
    if t.is_complete() {
        return false;
    }
    match cached {
        Some(c) => t.fill_from_cache(&c),
        None => {
            if !t.name.as_str().is_empty() {
                return false;
            }
            match searched {
                Some(s) => {
                    let changed = !s.name.as_str().is_empty()
                        || (t.poster.is_none() && s.poster.is_some())
                        || (t.title_type.is_none() && s.title_type.is_some())
                        || (t.year.is_none() && s.year.is_some())
                        || (t.season_count.is_none() && s.season_count.is_some())
                        || (t.description.is_none() && s.description.is_some());
                    let ghost before = t@;
                    t.fill_from_search(&s);
                    proof {
                        if !changed {
                            assert(t@.name =~= before.name);
                            assert(t@ == before);
                        } else if s@.name.len() > 0 {
                            assert(t@.name.len() != before.name.len());
                        }
                    }
                    changed
                },
                None => false,
            }
        },
    }
}

/// The first title with id `id` among `items`.
pub fn find_by_id(items: &Vec<Title>, id: u64) -> (r: Option<Title>)
    ensures
        match first_id(items@.map_values(|t: Title| t@), id) {
            Some(j) => r matches Some(t) && t@ == items@[j]@,
            None => r is None,
        },
{
    let ghost iv = items@.map_values(|t: Title| t@);
    let mut i: usize = 0;
    while i < items.len()
        invariant
            i <= items.len(),
            iv == items@.map_values(|t: Title| t@),
            first_id(iv.take(i as int), id) is None,
        decreases items.len() - i,
    {
        assert(iv.take(i as int + 1).drop_last() =~= iv.take(i as int));
        if items[i].id == id {
            proof { lemma_first_id_prefix(iv, i as int + 1, id); }
            return Some(items[i].copy());
        }
        i = i + 1;
    }
    assert(iv.take(items.len() as int) =~= iv);
    None
}

proof fn lemma_first_id_prefix(s: Seq<TitleView>, n: int, id: u64)
    requires
        0 <= n <= s.len(),
        first_id(s.take(n), id) is Some,
    ensures
        first_id(s, id) == first_id(s.take(n), id),
    decreases s.len() - n,
{
    if n < s.len() {
        assert(s.take(n + 1).drop_last() =~= s.take(n));
        lemma_first_id_prefix(s, n + 1, id);
    } else {
        assert(s.take(n) =~= s);
    }
}

proof fn lemma_first_id_range(s: Seq<TitleView>, id: u64)
    ensures
        first_id(s, id) matches Some(j) ==> 0 <= j < s.len() && s[j].id == id,
    decreases s.len(),
{
    if s.len() > 0 {
        lemma_first_id_range(s.drop_last(), id);
    }
}

/// The title as the detail card shows it: unchanged when it holds its
/// details already; otherwise its first listing (same id) on the home
/// page lists, when there is one.
pub open spec fn enrich_spec(t: TitleView, cats: Seq<Seq<TitleView>>) -> TitleView {
    if has_details_spec(t) {
        t
    } else {
        match listed_index(cats, t.id) {
            Some((c, j)) => cats[c][j],
            None => t,
        }
    }
}

/// Completes a title from the home page lists without any request.
pub fn enrich_title(t: &Title, cats: &Vec<Category>) -> (r: Title)
    ensures
        r@ == enrich_spec(t@, cat_views(cats@)),
{
    if t.has_details() {
        return t.copy();
    }
    let ghost cv = cat_views(cats@);
    let mut c: usize = 0;
    while c < cats.len()
        invariant
            c <= cats.len(),
            cv == cat_views(cats@),
            !has_details_spec(t@),
            listed_index(cv.take(c as int), t.id) is None,
        decreases cats.len() - c,
    {
        assert(cv.take(c as int + 1).drop_last() =~= cv.take(c as int));
        assert(cv[c as int] == cats@[c as int].items@.map_values(|x: Title| x@));
        proof { lemma_first_id_range(cv[c as int], t.id); }
        match find_by_id(&cats[c].items, t.id) {
            Some(found) => {
                proof { lemma_listed_prefix(cv, c as int + 1, t.id); }
                return found;
            },
            None => {},
        }
        c = c + 1;
    }
    assert(cv.take(cats.len() as int) =~= cv);
    t.copy()
}

proof fn lemma_listed_prefix(s: Seq<Seq<TitleView>>, n: int, id: u64)
    requires
        0 <= n <= s.len(),
        listed_index(s.take(n), id) is Some,
    ensures
        listed_index(s, id) == listed_index(s.take(n), id),
    decreases s.len() - n,
{
    if n < s.len() {
        assert(s.take(n + 1).drop_last() =~= s.take(n));
        lemma_listed_prefix(s, n + 1, id);
    } else {
        assert(s.take(n) =~= s);
    }
}

} // verus!
