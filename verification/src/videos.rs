//! The catalogue's video lists: the episodes of a title, the sources of an
//! episode or film, and the order in which sources are tried.

use vstd::prelude::*;
use crate::catalog::{Episode, EpisodeView};
use crate::embeds::{extract_host, extract_host_spec};
use crate::text::{chars_eq, chars_of, contains_sub, decimal, extend_chars, extend_str, find_sub_in, owned, string_from, u64_decimal};

verus! {

// ---------------------------------------------------------------------------
// Episodes
// ---------------------------------------------------------------------------

/// One video of a season list: its episode and season numbers (0 when
/// missing) and its name, if any.
#[derive(Clone, Debug)]
pub struct EpisodeRow {
    pub episode_num: u64,
    pub season_num: u64,
    pub name: Option<String>,
}

/// The name an episode gets: its own, else `Bölüm {n}`.
pub open spec fn episode_name(r: EpisodeRow) -> Seq<char> {
    match r.name {
        Some(n) => n@,
        None => "Bölüm "@ + decimal(r.episode_num as nat),
    }
}

/// Whether an episode with these numbers is listed.
pub open spec fn has_key(eps: Seq<EpisodeView>, season: u64, episode: u64) -> bool {
    exists|i: int| 0 <= i < eps.len() && eps[i].season == season && eps[i].episode == episode
}

/// The episodes of season `s` among the rows: rows of other seasons and
/// rows without an episode number are skipped, and only the first row of
/// each episode counts.
pub open spec fn season_episodes_spec(rows: Seq<EpisodeRow>, s: u64) -> Seq<EpisodeView>
    decreases rows.len(),
{
    if rows.len() == 0 {
        Seq::empty()
    } else {
        let prev = season_episodes_spec(rows.drop_last(), s);
        let r = rows.last();
        if r.episode_num == 0 || r.season_num != s || has_key(prev, r.season_num, r.episode_num) {
            prev
        } else {
            prev.push(EpisodeView { episode: r.episode_num, season: r.season_num, name: episode_name(r) })
        }
    }
}

/// The episode list of season `s` from the rows of its video list.
pub fn season_episodes(rows: &Vec<EpisodeRow>, s: u64) -> (r: Vec<Episode>)
    ensures
        r@.map_values(|e: Episode| e@) == season_episodes_spec(rows@, s),
{
    let mut out: Vec<Episode> = Vec::new();
    let mut i: usize = 0;
    while i < rows.len()
        invariant
            i <= rows.len(),
            out@.map_values(|e: Episode| e@) == season_episodes_spec(rows@.take(i as int), s),
        decreases rows.len() - i,
    {
        assert(rows@.take(i as int + 1).drop_last() =~= rows@.take(i as int));
        let r = &rows[i];
        let ghost prev = out@.map_values(|e: Episode| e@);
        if r.episode_num != 0 && r.season_num == s {
            let mut dup = false;
            let mut j: usize = 0;
            while j < out.len()
                invariant
                    j <= out.len(),
                    prev == out@.map_values(|e: Episode| e@),
                    dup == exists|k: int| 0 <= k < j && prev[k].season == r.season_num && prev[k].episode == r.episode_num,
                decreases out.len() - j,
            {
                assert(prev[j as int] == out@[j as int]@);
                if out[j].season == r.season_num && out[j].episode == r.episode_num {
                    dup = true;
                }
                j = j + 1;
            }
            if !dup {
                let name = match &r.name {
                    Some(n) => n.clone(),
                    None => {
                        let mut v = chars_of("Bölüm ");
                        let d = u64_decimal(r.episode_num);
                        extend_chars(&mut v, &d);
                        string_from(&v)
                    },
                };
                out.push(Episode { episode: r.episode_num, season: r.season_num, name });
                assert(out@.map_values(|e: Episode| e@) =~= prev.push(
                    EpisodeView { episode: r.episode_num, season: r.season_num, name: episode_name(*r) },
                ));
            }
        }
        i = i + 1;
    }
    assert(rows@.take(rows.len() as int) =~= rows@);
    out
}

/// Episode order: by season, then episode.
pub open spec fn ep_before(a: EpisodeView, b: EpisodeView) -> bool {
    a.season < b.season || (a.season == b.season && a.episode < b.episode)
}

/// Index of the first episode with these numbers.
pub open spec fn first_with_key(eps: Seq<EpisodeView>, season: u64, episode: u64) -> int
    decreases eps.len(),
{
    if eps.len() == 0 {
        0
    } else if eps[0].season == season && eps[0].episode == episode {
        0
    } else {
        1 + first_with_key(eps.drop_first(), season, episode)
    }
}

/// All episodes of all seasons joined in order.
pub open spec fn joined(lists: Seq<Seq<EpisodeView>>) -> Seq<EpisodeView>
    decreases lists.len(),
{
    if lists.len() == 0 {
        Seq::empty()
    } else {
        joined(lists.drop_last()) + lists.last()
    }
}

/// The merged episode list of a title: ordered by (season, episode), each
/// episode once, the first of its listings kept.
pub open spec fn merged_ok(all: Seq<EpisodeView>, r: Seq<EpisodeView>) -> bool {
    &&& forall|i: int, j: int| 0 <= i < j < r.len() ==> ep_before(r[i], r[j])
    &&& forall|i: int| 0 <= i < r.len() ==> has_key(all, #[trigger] r[i].season, r[i].episode)
    &&& forall|k: int| 0 <= k < all.len() ==> has_key(r, #[trigger] all[k].season, all[k].episode)
    &&& forall|i: int| 0 <= i < r.len() ==> #[trigger] r[i] == all[first_with_key(all, r[i].season, r[i].episode)]
}

proof fn lemma_first_with_key(s: Seq<EpisodeView>, season: u64, episode: u64)
    ensures
        0 <= first_with_key(s, season, episode) <= s.len(),
        has_key(s, season, episode) ==> first_with_key(s, season, episode) < s.len()
            && s[first_with_key(s, season, episode)].season == season
            && s[first_with_key(s, season, episode)].episode == episode,
        forall|k: int| 0 <= k < first_with_key(s, season, episode) ==> !(#[trigger] s[k].season == season && s[k].episode == episode),
    decreases s.len(),
{
    if s.len() > 0 && !(s[0].season == season && s[0].episode == episode) {
        let t = s.drop_first();
        lemma_first_with_key(t, season, episode);
        if has_key(s, season, episode) {
            let k = choose|k: int| 0 <= k < s.len() && s[k].season == season && s[k].episode == episode;
            assert(t[k - 1] == s[k]);
        }
        assert forall|k: int| 0 < k < first_with_key(s, season, episode) implies !(#[trigger] s[k].season == season && s[k].episode == episode) by {
            assert(s[k] == t[k - 1]);
        }
    }
}

proof fn lemma_first_with_key_push(s: Seq<EpisodeView>, x: EpisodeView, season: u64, episode: u64)
    requires
        has_key(s, season, episode),
    ensures
        first_with_key(s.push(x), season, episode) == first_with_key(s, season, episode),
    decreases s.len(),
{
    if !(s[0].season == season && s[0].episode == episode) {
        let k = choose|k: int| 0 <= k < s.len() && s[k].season == season && s[k].episode == episode;
        assert(s.drop_first()[k - 1] == s[k]);
        assert(s.push(x).drop_first() =~= s.drop_first().push(x));
        lemma_first_with_key_push(s.drop_first(), x, season, episode);
    }
}

proof fn lemma_first_with_key_new(s: Seq<EpisodeView>, x: EpisodeView)
    requires
        !has_key(s, x.season, x.episode),
    ensures
        first_with_key(s.push(x), x.season, x.episode) == s.len(),
    decreases s.len(),
{
    if s.len() > 0 {
        assert(!(s[0].season == x.season && s[0].episode == x.episode));
        assert(s.push(x).drop_first() =~= s.drop_first().push(x));
        assert(!has_key(s.drop_first(), x.season, x.episode)) by {
            if has_key(s.drop_first(), x.season, x.episode) {
                let k = choose|k: int| 0 <= k < s.drop_first().len() && s.drop_first()[k].season == x.season && s.drop_first()[k].episode == x.episode;
                assert(s[k + 1] == s.drop_first()[k]);
            }
        }
        lemma_first_with_key_new(s.drop_first(), x);
    }
}

/// The episodes of all seasons, ordered by (season, episode), each once
/// (the first listing kept).
pub fn merge_seasons(lists: &Vec<Vec<Episode>>) -> (r: Vec<Episode>)
    ensures
        merged_ok(joined(lists@.map_values(|l: Vec<Episode>| l@.map_values(|e: Episode| e@))), r@.map_values(|e: Episode| e@)),
{
    let ghost ls = lists@.map_values(|l: Vec<Episode>| l@.map_values(|e: Episode| e@));
    let mut all: Vec<Episode> = Vec::new();
    let mut i: usize = 0;
    while i < lists.len()
        invariant
            i <= lists.len(),
            ls == lists@.map_values(|l: Vec<Episode>| l@.map_values(|e: Episode| e@)),
            all@.map_values(|e: Episode| e@) == joined(ls.take(i as int)),
        decreases lists.len() - i,
    {
        assert(ls.take(i as int + 1).drop_last() =~= ls.take(i as int));
        let ghost before = all@.map_values(|e: Episode| e@);
        let l = &lists[i];
        let ghost lv = l@.map_values(|e: Episode| e@);
        assert(lv == ls[i as int]);
        let mut j: usize = 0;
        while j < l.len()
            invariant
                j <= l.len(),
                lv == l@.map_values(|e: Episode| e@),
                all@.map_values(|e: Episode| e@) == before + lv.take(j as int),
            decreases l.len() - j,
        {
            let e = l[j].copy();
            let ghost ev = e@;
            assert(ev == lv[j as int]);
            all.push(e);
            assert(all@.map_values(|e: Episode| e@) =~= (before + lv.take(j as int)).push(ev));
            assert(lv.take(j as int + 1) =~= lv.take(j as int).push(lv[j as int]));
            assert(all@.map_values(|e: Episode| e@) =~= before + lv.take(j as int + 1));
            j = j + 1;
        }
        assert(lv.take(l.len() as int) =~= lv);
        i = i + 1;
    }
    assert(ls.take(lists.len() as int) =~= ls);
    let ghost av = all@.map_values(|e: Episode| e@);
    let mut out: Vec<Episode> = Vec::new();
    let mut k: usize = 0;
    while k < all.len()
        invariant
            k <= all.len(),
            av == all@.map_values(|e: Episode| e@),
            merged_ok(av.take(k as int), out@.map_values(|e: Episode| e@)),
        decreases all.len() - k,
    {
        let ghost pre = av.take(k as int);
        let ghost ov = out@.map_values(|e: Episode| e@);
        let x = &all[k];
        assert(av.take(k as int + 1) =~= pre.push(av[k as int]));
        assert(av[k as int] == x@);
        let mut p: usize = 0;
        while p < out.len() && (out[p].season < x.season || (out[p].season == x.season && out[p].episode < x.episode))
            invariant
                p <= out.len(),
                k < all.len(),
                ov == out@.map_values(|e: Episode| e@),
                av[k as int] == x@,
                forall|q: int| 0 <= q < p ==> ep_before(#[trigger] ov[q], av[k as int]),
            decreases out.len() - p,
        {
            assert(ov[p as int] == out@[p as int]@);
            p = p + 1;
        }
        assert(av[k as int] == x@);
        proof {
            if p < out.len() {
                assert(ov[p as int] == out@[p as int]@);
            }
        }
        let same = p < out.len() && out[p].season == x.season && out[p].episode == x.episode;
        proof {
            lemma_first_with_key(pre, av[k as int].season, av[k as int].episode);
            assert forall|s: u64, e: u64| has_key(pre, s, e) implies first_with_key(pre.push(av[k as int]), s, e) == first_with_key(pre, s, e) by {
                lemma_first_with_key_push(pre, av[k as int], s, e);
            }
        }
        if same {
            proof {
                let nk = pre.push(av[k as int]);
                assert(ov[p as int] == out@[p as int]@);
                assert(has_key(pre, ov[p as int].season, ov[p as int].episode));
                assert(has_key(pre, av[k as int].season, av[k as int].episode));
                assert forall|i: int| 0 <= i < ov.len() implies has_key(nk, #[trigger] ov[i].season, ov[i].episode) by {
                    let w = choose|w: int| 0 <= w < pre.len() && pre[w].season == ov[i].season && pre[w].episode == ov[i].episode;
                    assert(nk[w] == pre[w]);
                }
                assert forall|q: int| 0 <= q < nk.len() implies has_key(ov, #[trigger] nk[q].season, nk[q].episode) by {
                    if q < pre.len() {
                        assert(nk[q] == pre[q]);
                    } else {
                        assert(ov[p as int].season == nk[q].season && ov[p as int].episode == nk[q].episode);
                    }
                }
                assert forall|i: int| 0 <= i < ov.len() implies #[trigger] ov[i] == nk[first_with_key(nk, ov[i].season, ov[i].episode)] by {
                    assert(has_key(pre, ov[i].season, ov[i].episode));
                    lemma_first_with_key(pre, ov[i].season, ov[i].episode);
                }
            }
        } else {
            let c = x.copy();
            out.insert(p, c);
            proof {
                let nk = pre.push(av[k as int]);
                let xv = av[k as int];
                let nv = out@.map_values(|e: Episode| e@);
                assert(nv =~= ov.insert(p as int, xv));
                assert(!has_key(pre, xv.season, xv.episode)) by {
                    if has_key(pre, xv.season, xv.episode) {
                        let w = choose|w: int| 0 <= w < ov.len() && ov[w].season == xv.season && ov[w].episode == xv.episode;
                        if w < p {
                            assert(ep_before(ov[w], xv));
                        } else if w > p {
                            assert(ep_before(ov[p as int], ov[w]));
                        }
                    }
                }
                lemma_first_with_key_new(pre, xv);
                assert forall|i: int, j: int| 0 <= i < j < nv.len() implies ep_before(nv[i], nv[j]) by {
                    if i < p && j == p {
                    } else if i == p && j > p {
                        assert(nv[j] == ov[j - 1]);
                        assert(!ep_before(ov[p as int], xv));
                        assert(!(ov[p as int].season == xv.season && ov[p as int].episode == xv.episode));
                        if j - 1 > p {
                            assert(ep_before(ov[p as int], ov[j - 1]));
                        }
                    } else if i < p && j > p {
                        assert(nv[j] == ov[j - 1]);
                    } else if i > p {
                        assert(nv[i] == ov[i - 1] && nv[j] == ov[j - 1]);
                    }
                }
                assert forall|i: int| 0 <= i < nv.len() implies has_key(nk, #[trigger] nv[i].season, nv[i].episode) by {
                    if i == p {
                        assert(nk[pre.len() as int] == xv);
                    } else {
                        let oi = if i < p { i } else { i - 1 };
                        assert(nv[i] == ov[oi]);
                        let w = choose|w: int| 0 <= w < pre.len() && pre[w].season == ov[oi].season && pre[w].episode == ov[oi].episode;
                        assert(nk[w] == pre[w]);
                    }
                }
                assert forall|q: int| 0 <= q < nk.len() implies has_key(nv, #[trigger] nk[q].season, nk[q].episode) by {
                    if q < pre.len() {
                        assert(nk[q] == pre[q]);
                        let w = choose|w: int| 0 <= w < ov.len() && ov[w].season == pre[q].season && ov[w].episode == pre[q].episode;
                        if w < p {
                            assert(nv[w] == ov[w]);
                        } else {
                            assert(nv[w + 1] == ov[w]);
                        }
                    } else {
                        assert(nv[p as int] == xv);
                    }
                }
                assert forall|i: int| 0 <= i < nv.len() implies #[trigger] nv[i] == nk[first_with_key(nk, nv[i].season, nv[i].episode)] by {
                    if i == p {
                    } else {
                        let oi = if i < p { i } else { i - 1 };
                        assert(nv[i] == ov[oi]);
                        assert(has_key(pre, ov[oi].season, ov[oi].episode));
                        lemma_first_with_key(pre, ov[oi].season, ov[oi].episode);
                    }
                }
            }
        }
        k = k + 1;
    }
    assert(av.take(all.len() as int) =~= av);
    out
}

// ---------------------------------------------------------------------------
// Films
// ---------------------------------------------------------------------------

/// One video of a film's list: its category, address (empty when missing)
/// and positive votes.
#[derive(Clone, Debug)]
pub struct VideoRow {
    pub category: Option<String>,
    pub url: String,
    pub votes: i64,
}

/// A full-film video with an address.
pub open spec fn is_full(r: VideoRow) -> bool {
    r.category matches Some(c) && c@ == "full"@ && r.url@.len() > 0
}

fn is_full_row(r: &VideoRow) -> (b: bool)
    ensures
        b == is_full(*r),
{
    match &r.category {
        Some(c) => crate::text::str_eq(c.as_str(), "full") && !r.url.as_str().is_empty(),
        None => false,
    }
}

/// A film gets its single "Filmi izle" entry when it has a full video.
pub open spec fn film_playable(rows: Seq<VideoRow>) -> bool {
    exists|i: int| 0 <= i < rows.len() && is_full(rows[i])
}

/// The episode list of a film: one "Filmi izle" entry when a full video is
/// listed, none otherwise.
pub fn movie_episodes_from(rows: &Vec<VideoRow>) -> (r: Vec<Episode>)
    ensures
        film_playable(rows@) ==> r@.len() == 1 && r@[0].episode == 1 && r@[0].season == 1 && r@[0].name@ == "Filmi izle"@,
        !film_playable(rows@) ==> r@.len() == 0,
{
    let mut i: usize = 0;
    while i < rows.len()
        invariant
            i <= rows.len(),
            forall|k: int| 0 <= k < i ==> !is_full(#[trigger] rows@[k]),
        decreases rows.len() - i,
    {
        if is_full_row(&rows[i]) {
            let mut v: Vec<Episode> = Vec::new();
            v.push(Episode { episode: 1, season: 1, name: owned("Filmi izle") });
            return v;
        }
        i = i + 1;
    }
    Vec::new()
}

/// Whether an address is a tau-video one.
pub open spec fn is_tau(u: Seq<char>) -> bool {
    contains_sub(u, "tau-video.xyz"@)
}

fn is_tau_url(u: &str) -> (b: bool)
    ensures
        b == is_tau(u@),
{
    let v = chars_of(u);
    let p = chars_of("tau-video.xyz");
    assert(v@.skip(0) =~= v@);
    find_sub_in(&v, 0, &p).is_some()
}

/// Film source order: tau-video first, then by more votes.
pub open spec fn film_before(a: VideoRow, b: VideoRow) -> bool {
    (is_tau(a.url@) && !is_tau(b.url@)) || (is_tau(a.url@) == is_tau(b.url@) && a.votes > b.votes)
}

/// `x` put into the ordered `s` after everything that is not after it.
pub open spec fn film_insert(s: Seq<VideoRow>, x: VideoRow) -> Seq<VideoRow>
    decreases s.len(),
{
    if s.len() == 0 {
        seq![x]
    } else if film_before(x, s[0]) {
        seq![x] + s
    } else {
        seq![s[0]] + film_insert(s.drop_first(), x)
    }
}

/// The stable order of the rows by `film_before`.
pub open spec fn film_sorted(s: Seq<VideoRow>) -> Seq<VideoRow>
    decreases s.len(),
{
    if s.len() == 0 {
        Seq::empty()
    } else {
        film_insert(film_sorted(s.drop_last()), s.last())
    }
}

/// The full-film videos with an address, in their order.
pub open spec fn full_rows(s: Seq<VideoRow>) -> Seq<VideoRow>
    decreases s.len(),
{
    if s.len() == 0 {
        Seq::empty()
    } else {
        full_rows(s.drop_last()) + if is_full(s.last()) { seq![s.last()] } else { Seq::empty() }
    }
}

/// The first `n` of `s` (all when fewer).
pub open spec fn first_n<T>(s: Seq<T>, n: nat) -> Seq<T> {
    if s.len() <= n { s } else { s.take(n as int) }
}

/// The film addresses to try: full videos, tau-video first then by votes
/// (ties keep the list order), at most 8.
pub open spec fn film_candidates_spec(rows: Seq<VideoRow>) -> Seq<Seq<char>> {
    first_n(film_sorted(full_rows(rows)), 8).map_values(|r: VideoRow| r.url@)
}

fn copy_row(r: &VideoRow) -> (c: VideoRow)
    ensures
        c == *r,
{
    VideoRow { category: crate::text::clone_opt_string(&r.category), url: r.url.clone(), votes: r.votes }
}

fn film_before_exec(a: &VideoRow, b: &VideoRow) -> (r: bool)
    ensures
        r == film_before(*a, *b),
{
    let ta = is_tau_url(a.url.as_str());
    let tb = is_tau_url(b.url.as_str());
    (ta && !tb) || (ta == tb && a.votes > b.votes)
}

fn film_insert_exec(s: &mut Vec<VideoRow>, x: VideoRow)
    ensures
        final(s)@ == film_insert(old(s)@, x),
{
    let ghost s0 = s@;
    let mut p: usize = 0;
    assert(s0.skip(0) =~= s0);
    assert(s0.take(0) + film_insert(s0, x) =~= film_insert(s0, x));
    while p < s.len() && !film_before_exec(&x, &s[p])
        invariant
            p <= s.len(),
            s@ == s0,
            film_insert(s0, x) == s0.take(p as int) + film_insert(s0.skip(p as int), x),
        decreases s.len() - p,
    {
        assert(s0.skip(p as int).drop_first() =~= s0.skip(p + 1));
        assert(s0.skip(p as int)[0] == s0[p as int]);
        assert(s0.take(p as int) + seq![s0[p as int]] =~= s0.take(p + 1));
        assert(film_insert(s0.skip(p as int), x) == seq![s0[p as int]] + film_insert(s0.skip(p + 1), x));
        assert(s0.take(p as int) + (seq![s0[p as int]] + film_insert(s0.skip(p + 1), x))
            =~= s0.take(p + 1) + film_insert(s0.skip(p + 1), x));
        p = p + 1;
    }
    s.insert(p, x);
    proof {
        if p < s0.len() {
            assert(s0.skip(p as int)[0] == s0[p as int]);
            assert(film_insert(s0.skip(p as int), x) == seq![x] + s0.skip(p as int));
        } else {
            assert(s0.skip(p as int) =~= Seq::<VideoRow>::empty());
        }
        assert(s@ =~= s0.take(p as int) + film_insert(s0.skip(p as int), x));
    }
}

/// The film addresses to try, in order.
pub fn film_candidates(rows: &Vec<VideoRow>) -> (r: Vec<String>)
    ensures
        r@.map_values(|s: String| s@) == film_candidates_spec(rows@),
{
    let mut sorted: Vec<VideoRow> = Vec::new();
    let mut full: Vec<VideoRow> = Vec::new();
    let mut i: usize = 0;
    while i < rows.len()
        invariant
            i <= rows.len(),
            full@ == full_rows(rows@.take(i as int)),
            sorted@ == film_sorted(full@),
        decreases rows.len() - i,
    {
        assert(rows@.take(i as int + 1).drop_last() =~= rows@.take(i as int));
        if is_full_row(&rows[i]) {
            let c = copy_row(&rows[i]);
            let c2 = copy_row(&rows[i]);
            full.push(c);
            film_insert_exec(&mut sorted, c2);
            assert(full@.drop_last() =~= full_rows(rows@.take(i as int)));
        }
        i = i + 1;
    }
    assert(rows@.take(rows.len() as int) =~= rows@);
    let mut out: Vec<String> = Vec::new();
    let n = if sorted.len() < 8 { sorted.len() } else { 8 };
    let ghost sv = sorted@.map_values(|r: VideoRow| r.url@);
    let mut k: usize = 0;
    while k < n
        invariant
            k <= n,
            n == if sorted@.len() < 8 { sorted@.len() } else { 8 },
            sv == sorted@.map_values(|r: VideoRow| r.url@),
            out@.map_values(|s: String| s@) == sv.take(k as int),
        decreases n - k,
    {
        out.push(sorted[k].url.clone());
        assert(sv.take(k as int + 1) =~= sv.take(k as int).push(sv[k as int]));
        assert(out@.map_values(|s: String| s@) =~= sv.take(k as int + 1));
        k = k + 1;
    }
    assert(first_n(sorted@, 8).map_values(|r: VideoRow| r.url@) =~= sv.take(n as int));
    out
}

// ---------------------------------------------------------------------------
// Ranking resolved sources by size
// ---------------------------------------------------------------------------

/// `x` put into the list ordered by size (largest first) after everything
/// at least as large.
pub open spec fn size_insert(s: Seq<(u64, Seq<char>)>, x: (u64, Seq<char>)) -> Seq<(u64, Seq<char>)>
    decreases s.len(),
{
    if s.len() == 0 {
        seq![x]
    } else if x.0 > s[0].0 {
        seq![x] + s
    } else {
        seq![s[0]] + size_insert(s.drop_first(), x)
    }
}

/// The stable order by size, largest first.
pub open spec fn size_sorted(s: Seq<(u64, Seq<char>)>) -> Seq<(u64, Seq<char>)>
    decreases s.len(),
{
    if s.len() == 0 {
        Seq::empty()
    } else {
        size_insert(size_sorted(s.drop_last()), s.last())
    }
}

pub open spec fn sized_views(v: Seq<(u64, String)>) -> Seq<(u64, Seq<char>)> {
    v.map_values(|p: (u64, String)| (p.0, p.1@))
}

fn size_insert_exec(s: &mut Vec<(u64, String)>, x: (u64, String))
    ensures
        sized_views(final(s)@) == size_insert(sized_views(old(s)@), (x.0, x.1@)),
{
    let ghost s0 = sized_views(s@);
    let ghost xv = (x.0, x.1@);
    let mut p: usize = 0;
    assert(s0.skip(0) =~= s0);
    assert(s0.take(0) + size_insert(s0, xv) =~= size_insert(s0, xv));
    while p < s.len() && !(x.0 > s[p].0)
        invariant
            p <= s.len(),
            sized_views(s@) == s0,
            xv == (x.0, x.1@),
            size_insert(s0, xv) == s0.take(p as int) + size_insert(s0.skip(p as int), xv),
        decreases s.len() - p,
    {
        assert(s0.skip(p as int).drop_first() =~= s0.skip(p + 1));
        assert(s0[p as int].0 == s@[p as int].0);
        assert(s0.skip(p as int)[0] == s0[p as int]);
        assert(!(xv.0 > s0.skip(p as int)[0].0));
        assert(s0.skip(p as int).len() > 0);
        assert(size_insert(s0.skip(p as int), xv) == seq![s0[p as int]] + size_insert(s0.skip(p + 1), xv));
        assert(s0.take(p as int) + seq![s0[p as int]] =~= s0.take(p + 1));
        assert(s0.take(p as int) + (seq![s0[p as int]] + size_insert(s0.skip(p + 1), xv))
            =~= s0.take(p + 1) + size_insert(s0.skip(p + 1), xv));
        p = p + 1;
    }
    s.insert(p, x);
    proof {
        if p < s0.len() {
            assert(s0[p as int].0 == old(s)@[p as int].0);
            assert(s0.skip(p as int)[0] == s0[p as int]);
            assert(size_insert(s0.skip(p as int), xv) == seq![xv] + s0.skip(p as int));
        } else {
            assert(s0.skip(p as int) =~= Seq::<(u64, Seq<char>)>::empty());
        }
        assert(sized_views(s@) =~= s0.take(p as int) + size_insert(s0.skip(p as int), xv));
    }
}

/// The resolved addresses ordered by size, largest first (equal sizes in
/// the order they were found).
pub fn rank_by_size(found: Vec<(u64, String)>) -> (r: Vec<String>)
    ensures
        r@.map_values(|s: String| s@) == size_sorted(sized_views(found@)).map_values(|p: (u64, Seq<char>)| p.1),
{
    let ghost fv = sized_views(found@);
    let mut sorted: Vec<(u64, String)> = Vec::new();
    let mut i: usize = 0;
    while i < found.len()
        invariant
            i <= found.len(),
            fv == sized_views(found@),
            sized_views(sorted@) == size_sorted(fv.take(i as int)),
        decreases found.len() - i,
    {
        let c = (found[i].0, found[i].1.clone());
        size_insert_exec(&mut sorted, c);
        assert(fv.take(i as int + 1).drop_last() =~= fv.take(i as int));
        i = i + 1;
    }
    assert(fv.take(found.len() as int) =~= fv);
    let ghost sv = sized_views(sorted@).map_values(|p: (u64, Seq<char>)| p.1);
    let mut out: Vec<String> = Vec::new();
    let mut k: usize = 0;
    while k < sorted.len()
        invariant
            k <= sorted.len(),
            sv == sized_views(sorted@).map_values(|p: (u64, Seq<char>)| p.1),
            out@.map_values(|s: String| s@) == sv.take(k as int),
        decreases sorted.len() - k,
    {
        out.push(sorted[k].1.clone());
        assert(sv.take(k as int + 1) =~= sv.take(k as int).push(sv[k as int]));
        assert(out@.map_values(|s: String| s@) =~= sv.take(k as int + 1));
        k = k + 1;
    }
    assert(sv.take(sorted.len() as int) =~= sv);
    out
}

/// Sizes in order, largest first.
pub open spec fn size_desc(s: Seq<(u64, Seq<char>)>) -> bool {
    forall|i: int, j: int| 0 <= i < j < s.len() ==> s[i].0 >= s[j].0
}

proof fn lemma_size_insert(s: Seq<(u64, Seq<char>)>, x: (u64, Seq<char>))
    requires
        size_desc(s),
    ensures
        size_desc(size_insert(s, x)),
        size_insert(s, x).to_multiset() == s.to_multiset().insert(x),
        size_insert(s, x).len() == s.len() + 1,
    decreases s.len(),
{
    broadcast use vstd::seq_lib::group_to_multiset_ensures;
    if s.len() == 0 {
        assert(seq![x] =~= Seq::<(u64, Seq<char>)>::empty().push(x));
    } else if x.0 > s[0].0 {
        let r = seq![x] + s;
        assert(r =~= s.insert(0, x));
        vstd::seq_lib::to_multiset_insert(s, 0, x);
        assert forall|i: int, j: int| 0 <= i < j < r.len() implies r[i].0 >= r[j].0 by {
            if i > 0 {
                assert(r[i] == s[i - 1] && r[j] == s[j - 1]);
            } else {
                assert(r[j] == s[j - 1]);
            }
        }
    } else {
        let t = s.drop_first();
        assert forall|i: int, j: int| 0 <= i < j < t.len() implies t[i].0 >= t[j].0 by {
            assert(t[i] == s[i + 1] && t[j] == s[j + 1]);
        }
        lemma_size_insert(t, x);
        let it = size_insert(t, x);
        let r = seq![s[0]] + it;
        assert(s =~= t.insert(0, s[0]));
        assert(r =~= it.insert(0, s[0]));
        vstd::seq_lib::to_multiset_insert(t, 0, s[0]);
        vstd::seq_lib::to_multiset_insert(it, 0, s[0]);
        assert forall|j: int| 0 <= j < it.len() implies s[0].0 >= #[trigger] it[j].0 by {
            assert(it.to_multiset().count(it[j]) > 0);
            assert(t.to_multiset().insert(x).count(it[j]) > 0);
            if it[j] != x {
                assert(t.to_multiset().count(it[j]) > 0);
                assert(t.contains(it[j]));
                let k = choose|k: int| 0 <= k < t.len() && t[k] == it[j];
                assert(s[k + 1] == t[k]);
            }
        }
        assert forall|i: int, j: int| 0 <= i < j < r.len() implies r[i].0 >= r[j].0 by {
            if i > 0 {
                assert(r[i] == it[i - 1] && r[j] == it[j - 1]);
            } else {
                assert(r[j] == it[j - 1]);
            }
        }
        assert(s.to_multiset().insert(x) =~= t.to_multiset().insert(x).insert(s[0]));
    }
}

proof fn lemma_size_sorted(s: Seq<(u64, Seq<char>)>)
    ensures
        size_desc(size_sorted(s)),
        size_sorted(s).to_multiset() == s.to_multiset(),
    decreases s.len(),
{
    broadcast use vstd::seq_lib::group_to_multiset_ensures;
    if s.len() > 0 {
        lemma_size_sorted(s.drop_last());
        lemma_size_insert(size_sorted(s.drop_last()), s.last());
        assert(s =~= s.drop_last().push(s.last()));
    }
}

/// The address tried first is one of the largest found: nothing found is
/// larger than the first of the ranking, and the ranking holds exactly the
/// addresses found.
pub proof fn lemma_largest_first(s: Seq<(u64, Seq<char>)>)
    requires
        s.len() > 0,
    ensures
        size_sorted(s).to_multiset() == s.to_multiset(),
        size_sorted(s).len() == s.len(),
        forall|i: int| 0 <= i < s.len() ==> size_sorted(s)[0].0 >= #[trigger] s[i].0,
{
    broadcast use vstd::seq_lib::group_to_multiset_ensures;
    lemma_size_sorted(s);
    let r = size_sorted(s);
    assert forall|i: int| 0 <= i < s.len() implies r[0].0 >= #[trigger] s[i].0 by {
        assert(s.to_multiset().count(s[i]) > 0);
        assert(r.to_multiset().count(s[i]) > 0);
        assert(r.contains(s[i]));
        let k = choose|k: int| 0 <= k < r.len() && r[k] == s[i];
        if k > 0 {
            assert(r[0].0 >= r[k].0);
        }
    }
    assert(r.to_multiset().len() == s.to_multiset().len());
}

// ---------------------------------------------------------------------------
// Episode sources
// ---------------------------------------------------------------------------

/// Selects the tau-video addresses (`want`) or the others.
pub open spec fn tau_pred(want: bool) -> spec_fn(Seq<char>) -> bool {
    |u: Seq<char>| is_tau(u) == want
}

/// The addresses of a translator's mirrors, tau-video ones first (each part
/// keeping its order).
pub open spec fn tau_first(urls: Seq<Seq<char>>) -> Seq<Seq<char>> {
    urls.filter(tau_pred(true)) + urls.filter(tau_pred(false))
}

/// The addresses of all translators in order, each translator's tau-video
/// mirrors first.
pub open spec fn ordered_mirrors(groups: Seq<Seq<Seq<char>>>) -> Seq<Seq<char>>
    decreases groups.len(),
{
    if groups.len() == 0 {
        Seq::empty()
    } else {
        ordered_mirrors(groups.drop_last()) + tau_first(groups.last())
    }
}

/// Collects addresses to try: non-empty, each once, at most 8.
pub open spec fn collect_candidates(urls: Seq<Seq<char>>) -> Seq<Seq<char>>
    decreases urls.len(),
{
    if urls.len() == 0 {
        Seq::empty()
    } else {
        let acc = collect_candidates(urls.drop_last());
        let u = urls.last();
        if acc.len() < 8 && u.len() > 0 && !acc.contains(u) { acc.push(u) } else { acc }
    }
}

proof fn lemma_collect_len(urls: Seq<Seq<char>>)
    ensures
        collect_candidates(urls).len() <= 8,
    decreases urls.len(),
{
    if urls.len() > 0 {
        lemma_collect_len(urls.drop_last());
    }
}

fn contains_string(v: &Vec<String>, s: &String) -> (r: bool)
    ensures
        r == v@.map_values(|x: String| x@).contains(s@),
{
    let ghost vv = v@.map_values(|x: String| x@);
    let mut i: usize = 0;
    while i < v.len()
        invariant
            i <= v.len(),
            vv == v@.map_values(|x: String| x@),
            forall|k: int| 0 <= k < i ==> vv[k] != s@,
        decreases v.len() - i,
    {
        let a = chars_of(v[i].as_str());
        let b = chars_of(s.as_str());
        if chars_eq(&a, &b) {
            assert(vv[i as int] == s@);
            return true;
        }
        i = i + 1;
    }
    false
}

/// The episode addresses to try, from the translators' mirror lists (the
/// translators already in their order of points and votes): each
/// translator's tau-video mirrors first, empty and repeated addresses
/// skipped, at most 8.
pub fn candidate_urls(groups: &Vec<Vec<String>>) -> (r: Vec<String>)
    ensures
        r@.map_values(|s: String| s@) == collect_candidates(
            ordered_mirrors(groups@.map_values(|g: Vec<String>| g@.map_values(|s: String| s@))),
        ),
{
    let ghost gs = groups@.map_values(|g: Vec<String>| g@.map_values(|s: String| s@));
    let mut flat: Vec<String> = Vec::new();
    let mut i: usize = 0;
    while i < groups.len()
        invariant
            i <= groups.len(),
            gs == groups@.map_values(|g: Vec<String>| g@.map_values(|s: String| s@)),
            flat@.map_values(|s: String| s@) == ordered_mirrors(gs.take(i as int)),
        decreases groups.len() - i,
    {
        assert(gs.take(i as int + 1).drop_last() =~= gs.take(i as int));
        let g = &groups[i];
        let ghost gv = gs[i as int];
        assert(gv == g@.map_values(|s: String| s@));
        let ghost base = flat@.map_values(|s: String| s@);
        let mut pass: usize = 0;
        while pass < 2
            invariant
                pass <= 2,
                gv == g@.map_values(|s: String| s@),
                flat@.map_values(|s: String| s@) == base + if pass == 0 {
                    Seq::empty()
                } else if pass == 1 {
                    gv.filter(tau_pred(true))
                } else {
                    tau_first(gv)
                },
            decreases 2 - pass,
        {
            let ghost mid = flat@.map_values(|s: String| s@);
            let want_tau = pass == 0;
            let mut j: usize = 0;
            while j < g.len()
                invariant
                    j <= g.len(),
                    gv == g@.map_values(|s: String| s@),
                    flat@.map_values(|s: String| s@) == mid + gv.take(j as int).filter(tau_pred(want_tau)),
                decreases g.len() - j,
            {
                let ghost before = flat@.map_values(|s: String| s@);
                assert(gv.take(j as int + 1) =~= gv.take(j as int).push(gv[j as int]));
                proof {
                    gv.take(j as int).lemma_filter_push(gv[j as int], tau_pred(want_tau));
                }
                if is_tau_url(g[j].as_str()) == want_tau {
                    flat.push(g[j].clone());
                    assert(flat@.map_values(|s: String| s@) =~= before.push(gv[j as int]));
                }
                j = j + 1;
            }
            assert(gv.take(g.len() as int) =~= gv);
            pass = pass + 1;
        }
        i = i + 1;
    }
    assert(gs.take(groups.len() as int) =~= gs);
    let ghost fv = flat@.map_values(|s: String| s@);
    let mut out: Vec<String> = Vec::new();
    let mut k: usize = 0;
    while k < flat.len()
        invariant
            k <= flat.len(),
            fv == flat@.map_values(|s: String| s@),
            out@.map_values(|s: String| s@) == collect_candidates(fv.take(k as int)),
        decreases flat.len() - k,
    {
        assert(fv.take(k as int + 1).drop_last() =~= fv.take(k as int));
        let ghost acc = out@.map_values(|s: String| s@);
        if out.len() < 8 && !flat[k].as_str().is_empty() && !contains_string(&out, &flat[k]) {
            out.push(flat[k].clone());
            assert(out@.map_values(|s: String| s@) =~= acc.push(fv[k as int]));
        }
        k = k + 1;
    }
    assert(fv.take(flat.len() as int) =~= fv);
    out
}

/// One video of an episode's source list: translator template, positive
/// votes and address (empty when missing).
#[derive(Clone, Debug)]
pub struct SourceRow {
    pub template: i64,
    pub votes: i64,
    pub url: String,
}

/// A translator's group: its template, the sum of its videos' votes and
/// their addresses in list order.
pub struct SourceGroup {
    pub template: i64,
    pub votes: i128,
    pub urls: Vec<String>,
}

/// Position of the group of `t` among the templates seen.
pub open spec fn template_pos(ts: Seq<i64>, t: i64) -> Option<int>
    decreases ts.len(),
{
    if ts.len() == 0 {
        None
    } else {
        match template_pos(ts.drop_last(), t) {
            Some(p) => Some(p),
            None => if ts.last() == t { Some(ts.len() - 1) } else { None },
        }
    }
}

/// The groups' (template, vote sum, addresses) as plain values.
pub open spec fn groups_of(rows: Seq<SourceRow>) -> Seq<(i64, int, Seq<Seq<char>>)>
    decreases rows.len(),
{
    if rows.len() == 0 {
        Seq::empty()
    } else {
        let g = groups_of(rows.drop_last());
        let r = rows.last();
        match template_pos(g.map_values(|x: (i64, int, Seq<Seq<char>>)| x.0), r.template) {
            Some(p) => g.update(p, (g[p].0, g[p].1 + r.votes, g[p].2.push(r.url@))),
            None => g.push((r.template, r.votes as int, seq![r.url@])),
        }
    }
}

pub open spec fn group_views(v: Seq<SourceGroup>) -> Seq<(i64, int, Seq<Seq<char>>)> {
    v.map_values(|g: SourceGroup| (g.template, g.votes as int, g.urls@.map_values(|s: String| s@)))
}

proof fn lemma_template_pos(ts: Seq<i64>, t: i64)
    ensures
        template_pos(ts, t) matches Some(p) ==> 0 <= p < ts.len() && ts[p] == t,
        template_pos(ts, t) is None ==> !ts.contains(t),
    decreases ts.len(),
{
    if ts.len() > 0 {
        lemma_template_pos(ts.drop_last(), t);
        if template_pos(ts, t) is None && ts.contains(t) {
            let k = choose|k: int| 0 <= k < ts.len() && ts[k] == t;
            assert(ts.drop_last()[k] == t);
        }
    }
}

/// A group's votes stay within what its videos can add up to.
pub open spec fn votes_bounded(g: SourceGroup) -> bool {
    -(g.urls@.len() as int) * 0x8000_0000_0000_0000 <= g.votes as int <= (g.urls@.len() as int) * 0x8000_0000_0000_0000
}

fn add_to_group(g: &mut SourceGroup, r: &SourceRow)
    requires
        votes_bounded(*old(g)),
        old(g).urls@.len() < 0x1_0000_0000_0000_0000,
    ensures
        votes_bounded(*final(g)),
        final(g).template == old(g).template,
        final(g).votes as int == old(g).votes as int + r.votes as int,
        final(g).urls@.map_values(|s: String| s@) == old(g).urls@.map_values(|s: String| s@).push(r.url@),
        final(g).urls@.len() == old(g).urls@.len() + 1,
{
    let ghost gu = g.urls@.map_values(|s: String| s@);
    g.votes = g.votes + r.votes as i128;
    g.urls.push(r.url.clone());
    assert(g.urls@.map_values(|s: String| s@) =~= gu.push(r.url@));
}

/// Groups an episode's videos by translator, in order of first
/// appearance, adding up the votes.
pub fn group_sources(rows: &Vec<SourceRow>) -> (r: Vec<SourceGroup>)
    requires
        rows@.len() < 0x1_0000_0000_0000_0000,
    ensures
        group_views(r@) == groups_of(rows@),
{
    let mut out: Vec<SourceGroup> = Vec::new();
    let mut i: usize = 0;
    while i < rows.len()
        invariant
            i <= rows.len(),
            rows@.len() < 0x1_0000_0000_0000_0000,
            group_views(out@) == groups_of(rows@.take(i as int)),
            forall|k: int| 0 <= k < out@.len() ==> votes_bounded(#[trigger] out@[k]) && out@[k].urls@.len() <= i,
        decreases rows.len() - i,
    {
        assert(rows@.take(i as int + 1).drop_last() =~= rows@.take(i as int));
        let r = &rows[i];
        let ghost gv = group_views(out@);
        let ghost ts = gv.map_values(|x: (i64, int, Seq<Seq<char>>)| x.0);
        proof { lemma_template_pos(ts, r.template); }
        let mut p: usize = 0;
        while p < out.len() && out[p].template != r.template
            invariant
                p <= out.len(),
                gv == group_views(out@),
                ts == gv.map_values(|x: (i64, int, Seq<Seq<char>>)| x.0),
                template_pos(ts.take(p as int), r.template) is None,
            decreases out.len() - p,
        {
            assert(ts.take(p as int + 1).drop_last() =~= ts.take(p as int));
            p = p + 1;
        }
        if p < out.len() {
            proof {
                assert(ts.take(p as int + 1).drop_last() =~= ts.take(p as int));
                lemma_template_pos_prefix(ts, p as int + 1, r.template);
            }
            let ghost o0 = out@;
            let mut g = out.remove(p);
            assert(g == o0[p as int]);
            add_to_group(&mut g, r);
            out.insert(p, g);
            proof {
                assert forall|k: int| 0 <= k < out@.len() implies votes_bounded(#[trigger] out@[k]) && out@[k].urls@.len() <= i + 1 by {
                    if k != p {
                        assert(out@[k] == o0[k]);
                    }
                }
                assert(group_views(out@) =~= gv.update(p as int, (gv[p as int].0, gv[p as int].1 + r.votes, gv[p as int].2.push(r.url@))));
            }
        } else {
            assert(ts.take(p as int) =~= ts);
            let ghost o0 = out@;
            let mut urls: Vec<String> = Vec::new();
            urls.push(r.url.clone());
            assert(urls@.map_values(|s: String| s@) =~= seq![r.url@]);
            out.push(SourceGroup { template: r.template, votes: r.votes as i128, urls });
            proof {
                assert forall|k: int| 0 <= k < out@.len() implies votes_bounded(#[trigger] out@[k]) && out@[k].urls@.len() <= i + 1 by {
                    if k < o0.len() {
                        assert(out@[k] == o0[k]);
                    }
                }
                assert(group_views(out@) =~= gv.push((r.template, r.votes as int, seq![r.url@])));
            }
        }
        i = i + 1;
    }
    assert(rows@.take(rows.len() as int) =~= rows@);
    out
}

proof fn lemma_template_pos_prefix(s: Seq<i64>, n: int, t: i64)
    requires
        0 <= n <= s.len(),
        template_pos(s.take(n), t) is Some,
    ensures
        template_pos(s, t) == template_pos(s.take(n), t),
    decreases s.len() - n,
{
    if n < s.len() {
        assert(s.take(n + 1).drop_last() =~= s.take(n));
        lemma_template_pos_prefix(s, n + 1, t);
    } else {
        assert(s.take(n) =~= s);
    }
}

/// Selects the videos that have an address.
pub open spec fn with_url() -> spec_fn(SourceRow) -> bool {
    |x: SourceRow| x.url@.len() > 0
}

/// A source as listed for the viewer: host name, votes, template and address.
pub struct SourceEntry {
    pub host: String,
    pub votes: i64,
    pub template: i64,
    pub embed_url: String,
}

/// The listed sources of an episode: `Kaynak bulunamadı` when its video
/// list is empty; otherwise its videos with an address, with their host.
pub fn episode_sources(rows: &Vec<SourceRow>) -> (r: Result<Vec<SourceEntry>, String>)
    ensures
        r is Err <==> rows@.len() == 0,
        r matches Err(e) ==> e@ == "Kaynak bulunamadı"@,
        r matches Ok(v) ==> {
            let f = rows@.filter(with_url());
            &&& v@.len() == f.len()
            &&& forall|i: int| 0 <= i < f.len() ==> {
                &&& (#[trigger] v@[i]).embed_url@ == f[i].url@
                &&& v@[i].votes == f[i].votes && v@[i].template == f[i].template
                &&& v@[i].host@ == extract_host_spec(f[i].url@)
            }
        },
{
    if rows.len() == 0 {
        return Err(owned("Kaynak bulunamadı"));
    }
    let mut out: Vec<SourceEntry> = Vec::new();
    let mut i: usize = 0;
    while i < rows.len()
        invariant
            i <= rows.len(),
            out@.len() == rows@.take(i as int).filter(with_url()).len(),
            forall|k: int| 0 <= k < out@.len() ==> {
                let f = rows@.take(i as int).filter(with_url());
                &&& (#[trigger] out@[k]).embed_url@ == f[k].url@
                &&& out@[k].votes == f[k].votes && out@[k].template == f[k].template
                &&& out@[k].host@ == extract_host_spec(f[k].url@)
            },
        decreases rows.len() - i,
    {
        let ghost f0 = rows@.take(i as int).filter(with_url());
        assert(rows@.take(i as int + 1) =~= rows@.take(i as int).push(rows@[i as int]));
        proof {
            rows@.take(i as int).lemma_filter_push(rows@[i as int], with_url());
        }
        let r = &rows[i];
        if !r.url.as_str().is_empty() {
            let host = extract_host(r.url.as_str());
            out.push(SourceEntry { host, votes: r.votes, template: r.template, embed_url: r.url.clone() });
        }
        i = i + 1;
    }
    assert(rows@.take(rows.len() as int) =~= rows@);
    Ok(out)
}

/// Film source order: more votes first.
pub open spec fn votes_insert(s: Seq<VideoRow>, x: VideoRow) -> Seq<VideoRow>
    decreases s.len(),
{
    if s.len() == 0 {
        seq![x]
    } else if x.votes > s[0].votes {
        seq![x] + s
    } else {
        seq![s[0]] + votes_insert(s.drop_first(), x)
    }
}

/// The stable order of the rows by votes, most first.
pub open spec fn votes_sorted(s: Seq<VideoRow>) -> Seq<VideoRow>
    decreases s.len(),
{
    if s.len() == 0 {
        Seq::empty()
    } else {
        votes_insert(votes_sorted(s.drop_last()), s.last())
    }
}

fn votes_insert_exec(s: &mut Vec<VideoRow>, x: VideoRow)
    ensures
        final(s)@ == votes_insert(old(s)@, x),
{
    let ghost s0 = s@;
    let mut p: usize = 0;
    assert(s0.skip(0) =~= s0);
    assert(s0.take(0) + votes_insert(s0, x) =~= votes_insert(s0, x));
    while p < s.len() && !(x.votes > s[p].votes)
        invariant
            p <= s.len(),
            s@ == s0,
            votes_insert(s0, x) == s0.take(p as int) + votes_insert(s0.skip(p as int), x),
        decreases s.len() - p,
    {
        assert(s0.skip(p as int).drop_first() =~= s0.skip(p + 1));
        assert(s0.skip(p as int)[0] == s0[p as int]);
        assert(votes_insert(s0.skip(p as int), x) == seq![s0[p as int]] + votes_insert(s0.skip(p + 1), x));
        assert(s0.take(p as int) + (seq![s0[p as int]] + votes_insert(s0.skip(p + 1), x))
            =~= s0.take(p + 1) + votes_insert(s0.skip(p + 1), x));
        p = p + 1;
    }
    s.insert(p, x);
    proof {
        if p < s0.len() {
            assert(s0.skip(p as int)[0] == s0[p as int]);
            assert(votes_insert(s0.skip(p as int), x) == seq![x] + s0.skip(p as int));
        } else {
            assert(s0.skip(p as int) =~= Seq::<VideoRow>::empty());
        }
        assert(s@ =~= s0.take(p as int) + votes_insert(s0.skip(p as int), x));
    }
}

/// The listed sources of a film: its full videos with an address, by votes
/// (most first, ties in list order), with their host;
/// `Film kaynağı bulunamadı` when there are none.
pub fn film_sources(rows: &Vec<VideoRow>) -> (r: Result<Vec<SourceEntry>, String>)
    ensures
        r is Err <==> full_rows(rows@).len() == 0,
        r matches Err(e) ==> e@ == "Film kaynağı bulunamadı"@,
        r matches Ok(v) ==> {
            let s = votes_sorted(full_rows(rows@));
            &&& v@.len() == s.len()
            &&& forall|i: int| 0 <= i < s.len() ==> {
                &&& (#[trigger] v@[i]).embed_url@ == s[i].url@
                &&& v@[i].votes == s[i].votes && v@[i].template == 0
                &&& v@[i].host@ == extract_host_spec(s[i].url@)
            }
        },
{
    let mut sorted: Vec<VideoRow> = Vec::new();
    let mut full: Vec<VideoRow> = Vec::new();
    let mut i: usize = 0;
    while i < rows.len()
        invariant
            i <= rows.len(),
            full@ == full_rows(rows@.take(i as int)),
            sorted@ == votes_sorted(full@),
        decreases rows.len() - i,
    {
        assert(rows@.take(i as int + 1).drop_last() =~= rows@.take(i as int));
        if is_full_row(&rows[i]) {
            let c = copy_row(&rows[i]);
            let c2 = copy_row(&rows[i]);
            full.push(c);
            votes_insert_exec(&mut sorted, c2);
            assert(full@.drop_last() =~= full_rows(rows@.take(i as int)));
        }
        i = i + 1;
    }
    assert(rows@.take(rows.len() as int) =~= rows@);
    proof { lemma_votes_sorted_len(full@); }
    if sorted.len() == 0 {
        return Err(owned("Film kaynağı bulunamadı"));
    }
    let mut out: Vec<SourceEntry> = Vec::new();
    let mut k: usize = 0;
    while k < sorted.len()
        invariant
            k <= sorted.len(),
            out@.len() == k,
            forall|j: int| 0 <= j < k ==> {
                &&& (#[trigger] out@[j]).embed_url@ == sorted@[j].url@
                &&& out@[j].votes == sorted@[j].votes && out@[j].template == 0
                &&& out@[j].host@ == extract_host_spec(sorted@[j].url@)
            },
        decreases sorted.len() - k,
    {
        let host = extract_host(sorted[k].url.as_str());
        out.push(SourceEntry { host, votes: sorted[k].votes, template: 0, embed_url: sorted[k].url.clone() });
        k = k + 1;
    }
    Ok(out)
}

proof fn lemma_votes_insert_len(s: Seq<VideoRow>, x: VideoRow)
    ensures
        votes_insert(s, x).len() == s.len() + 1,
    decreases s.len(),
{
    if s.len() > 0 && !(x.votes > s[0].votes) {
        lemma_votes_insert_len(s.drop_first(), x);
    }
}

proof fn lemma_votes_sorted_len(s: Seq<VideoRow>)
    ensures
        votes_sorted(s).len() == s.len(),
    decreases s.len(),
{
    if s.len() > 0 {
        lemma_votes_sorted_len(s.drop_last());
        lemma_votes_insert_len(votes_sorted(s.drop_last()), s.last());
    }
}

// ---------------------------------------------------------------------------
// Home page lists
// ---------------------------------------------------------------------------

/// Whether a home-page list item is shown: an anime, a film or a title
/// entry.
pub open spec fn home_item_spec(title_type: Seq<char>, model_type: Seq<char>) -> bool {
    title_type == "anime"@ || title_type == "movie"@ || model_type == "title"@
}

/// Decides whether a home-page list item is shown (its types as listed,
/// empty when missing).
pub fn home_item_wanted(title_type: &str, model_type: &str) -> (r: bool)
    ensures
        r == home_item_spec(title_type@, model_type@),
{
    crate::text::str_eq(title_type, "anime") || crate::text::str_eq(title_type, "movie")
        || crate::text::str_eq(model_type, "title")
}

} // verus!
