//! The viewer's own records: watched episodes, favourites, the marathon
//! list, watch history and the one-time tips, with the operations the
//! application performs on them.

use vstd::prelude::*;
use std::collections::HashMap;
use crate::catalog::{Episode, EpisodeView, Title, TitleView};
use crate::text::{chars_eq, chars_of, decimal, pieces, range_starts_with, split_bounds, split_on, starts_with, sub_vec, u64_decimal};

verus! {

broadcast use vstd::std_specs::hash::group_hash_axioms;

/// One watched episode of a title.
#[derive(Clone, Copy, Debug, PartialEq, Eq, Structural)]
pub struct Watched {
    pub title_id: u64,
    pub episode: u64,
    pub season: u64,
}

/// An entry of the watch history.
pub struct HistoryEntry {
    pub title: Title,
    pub episode: Episode,
    pub ts: u64,
}

/// A history entry seen as plain values.
pub struct HistoryView {
    pub title: TitleView,
    pub episode: EpisodeView,
    pub ts: u64,
}

impl View for HistoryEntry {
    type V = HistoryView;

    open spec fn view(&self) -> HistoryView {
        HistoryView { title: self.title@, episode: self.episode@, ts: self.ts }
    }
}

/// A title on the marathon list.
pub struct MarathonItem {
    pub title: Title,
    pub completed: bool,
    pub added_at: u64,
}

/// A marathon entry seen as plain values.
pub struct MarathonView {
    pub title: TitleView,
    pub completed: bool,
    pub added_at: u64,
}

impl View for MarathonItem {
    type V = MarathonView;

    open spec fn view(&self) -> MarathonView {
        MarathonView { title: self.title@, completed: self.completed, added_at: self.added_at }
    }
}

/// Most history entries kept.
pub const HISTORY_LIMIT: usize = 30;

/// The viewer's records.
pub struct State {
    /// The episode being watched now ("continue watching").
    pub current: Option<Watched>,
    /// Watched episodes per title id.
    pub watched: HashMap<u64, Vec<Watched>>,
    /// Favourites, newest first.
    pub saved: Vec<Title>,
    /// Watch history, newest first.
    pub history: Vec<HistoryEntry>,
    pub welcome_seen: bool,
    pub quick_search_tip_seen: bool,
    pub search_tip_seen: bool,
    pub right_click_tip_seen: bool,
    /// The marathon list, in the viewer's order.
    pub marathon: Vec<MarathonItem>,
}

/// The records seen as plain values.
pub struct StateView {
    pub current: Option<Watched>,
    pub watched: Map<u64, Seq<Watched>>,
    pub saved: Seq<TitleView>,
    pub history: Seq<HistoryView>,
    pub welcome_seen: bool,
    pub quick_search_tip_seen: bool,
    pub search_tip_seen: bool,
    pub right_click_tip_seen: bool,
    pub marathon: Seq<MarathonView>,
}

impl View for State {
    type V = StateView;

    open spec fn view(&self) -> StateView {
        StateView {
            current: self.current,
            watched: self.watched@.map_values(|v: Vec<Watched>| v@),
            saved: self.saved@.map_values(|t: Title| t@),
            history: self.history@.map_values(|h: HistoryEntry| h@),
            welcome_seen: self.welcome_seen,
            quick_search_tip_seen: self.quick_search_tip_seen,
            search_tip_seen: self.search_tip_seen,
            right_click_tip_seen: self.right_click_tip_seen,
            marathon: self.marathon@.map_values(|m: MarathonItem| m@),
        }
    }
}

// ---------------------------------------------------------------------------
// Specification helpers
// ---------------------------------------------------------------------------

/// Index of the first title with id `id`.
pub open spec fn title_pos(s: Seq<TitleView>, id: u64) -> Option<int>
    decreases s.len(),
{
    if s.len() == 0 {
        None
    } else if s[0].id == id {
        Some(0)
    } else {
        match title_pos(s.drop_first(), id) {
            Some(i) => Some(i + 1),
            None => None,
        }
    }
}

/// The title ids of a list of titles.
pub open spec fn title_ids(s: Seq<TitleView>) -> Seq<u64> {
    s.map_values(|t: TitleView| t.id)
}

/// The title ids of the marathon entries.
pub open spec fn marathon_titles(s: Seq<MarathonView>) -> Seq<TitleView> {
    s.map_values(|m: MarathonView| m.title)
}

/// The title ids of the history entries.
pub open spec fn history_titles(s: Seq<HistoryView>) -> Seq<TitleView> {
    s.map_values(|h: HistoryView| h.title)
}

/// Marathon entries without those of title `id`.
pub open spec fn marathon_without(s: Seq<MarathonView>, id: u64) -> Seq<MarathonView>
    decreases s.len(),
{
    if s.len() == 0 {
        Seq::empty()
    } else if s.last().title.id == id {
        marathon_without(s.drop_last(), id)
    } else {
        marathon_without(s.drop_last(), id).push(s.last())
    }
}

/// History entries without those whose title is `id`.
pub open spec fn history_without(s: Seq<HistoryView>, id: u64) -> Seq<HistoryView>
    decreases s.len(),
{
    if s.len() == 0 {
        Seq::empty()
    } else if s.last().title.id == id {
        history_without(s.drop_last(), id)
    } else {
        history_without(s.drop_last(), id).push(s.last())
    }
}

/// History entries without those whose title is one of `ids`.
pub open spec fn history_without_any(s: Seq<HistoryView>, ids: Seq<u64>) -> Seq<HistoryView>
    decreases s.len(),
{
    if s.len() == 0 {
        Seq::empty()
    } else if ids.contains(s.last().title.id) {
        history_without_any(s.drop_last(), ids)
    } else {
        history_without_any(s.drop_last(), ids).push(s.last())
    }
}

/// Whether the list holds episode `e` of season `s`.
pub open spec fn has_episode(l: Seq<Watched>, season: u64, episode: u64) -> bool {
    exists|i: int| 0 <= i < l.len() && (#[trigger] l[i]).episode == episode && l[i].season == season
}

/// The watched list of a title (empty when none is recorded).
pub open spec fn watched_list(st: StateView, tid: u64) -> Seq<Watched> {
    if st.watched.contains_key(tid) {
        st.watched[tid]
    } else {
        Seq::empty()
    }
}

/// The order key of a watched episode.
pub open spec fn episode_key(w: Watched) -> int {
    w.season * 10000 + w.episode
}

/// `s` with `x` placed after every entry whose key is at most `x`'s,
/// scanning from the back (so equal keys keep their order).
pub open spec fn insert_by_key(s: Seq<Watched>, x: Watched) -> Seq<Watched>
    decreases s.len(),
{
    if s.len() == 0 {
        seq![x]
    } else if episode_key(s.last()) <= episode_key(x) {
        s.push(x)
    } else {
        insert_by_key(s.drop_last(), x).push(s.last())
    }
}

/// A stable sort of watched episodes by `season * 10000 + episode`.
pub open spec fn sort_by_key(s: Seq<Watched>) -> Seq<Watched>
    decreases s.len(),
{
    if s.len() == 0 {
        Seq::empty()
    } else {
        insert_by_key(sort_by_key(s.drop_last()), s.last())
    }
}

/// Whether every key of the list fits in a `u64` (keys are computed in
/// `u64`).
pub open spec fn keys_fit(l: Seq<Watched>) -> bool {
    forall|i: int| 0 <= i < l.len() ==> episode_key(#[trigger] l[i]) <= u64::MAX
}

/// The watched list after recording `w`: `w` added when that episode is not
/// listed yet, then sorted by key.
pub open spec fn record_watched(l: Seq<Watched>, w: Watched) -> Seq<Watched> {
    sort_by_key(if has_episode(l, w.season, w.episode) { l } else { l.push(w) })
}

/// The list without episode `e` of season `s`.
pub open spec fn without_episode(l: Seq<Watched>, season: u64, episode: u64) -> Seq<Watched>
    decreases l.len(),
{
    if l.len() == 0 {
        Seq::empty()
    } else if l.last().episode == episode && l.last().season == season {
        without_episode(l.drop_last(), season, episode)
    } else {
        without_episode(l.drop_last(), season, episode).push(l.last())
    }
}

/// The history after playing episode `e` of title `t` at time `now`: a new
/// entry first, earlier entries of the same title dropped, at most
/// `HISTORY_LIMIT` entries kept.
pub open spec fn add_history_spec(h: Seq<HistoryView>, t: TitleView, e: EpisodeView, now: u64) -> Seq<HistoryView> {
    let all = seq![HistoryView { title: t, episode: e, ts: now }] + history_without(h, t.id);
    if all.len() > HISTORY_LIMIT { all.take(HISTORY_LIMIT as int) } else { all }
}

/// The favourites after toggling title `t`: its first entry removed, or
/// the title put first when it was not there.
pub open spec fn toggle_saved_spec(s: Seq<TitleView>, t: TitleView) -> Seq<TitleView> {
    match title_pos(s, t.id) {
        Some(p) => s.remove(p),
        None => seq![t] + s,
    }
}

/// The marathon list after toggling title `t` at time `now`: its first
/// entry removed, or a fresh entry appended when it was not there.
pub open spec fn toggle_marathon_spec(m: Seq<MarathonView>, t: TitleView, now: u64) -> Seq<MarathonView> {
    match title_pos(marathon_titles(m), t.id) {
        Some(p) => m.remove(p),
        None => m.push(MarathonView { title: t, completed: false, added_at: now }),
    }
}

/// The marathon list after moving title `id` to `new_index` (clamped to the
/// last position); unchanged when the title is not on it or already there.
pub open spec fn reorder_spec(m: Seq<MarathonView>, id: u64, new_index: int) -> Seq<MarathonView> {
    match title_pos(marathon_titles(m), id) {
        None => m,
        Some(pos) => if pos == new_index {
            m
        } else {
            let rest = m.remove(pos);
            let idx = if new_index < rest.len() { new_index } else { rest.len() as int };
            rest.insert(idx, m[pos])
        },
    }
}

proof fn lemma_title_pos(s: Seq<TitleView>, id: u64)
    ensures
        title_pos(s, id) is None <==> (forall|i: int| 0 <= i < s.len() ==> (#[trigger] s[i]).id != id),
        title_pos(s, id) matches Some(p) ==> 0 <= p < s.len() && s[p].id == id && forall|i: int|
            0 <= i < p ==> (#[trigger] s[i]).id != id,
    decreases s.len(),
{
    if s.len() > 0 {
        lemma_title_pos(s.drop_first(), id);
        if s[0].id != id {
            assert forall|i: int| 1 <= i < s.len() implies s[i] == s.drop_first()[i - 1] by {}
        }
    }
}

/// Index of the first title with id `id` in a vector of titles.
fn find_title(v: &Vec<Title>, id: u64) -> (r: Option<usize>)
    ensures
        match r {
            Some(p) => p < v.len() && title_pos(v@.map_values(|t: Title| t@), id) == Some(p as int),
            None => title_pos(v@.map_values(|t: Title| t@), id) is None,
        },
{
    let ghost s = v@.map_values(|t: Title| t@);
    proof { lemma_title_pos(s, id); }
    let mut i: usize = 0;
    while i < v.len()
        invariant
            i <= v.len(),
            s == v@.map_values(|t: Title| t@),
            forall|k: int| 0 <= k < i ==> (#[trigger] s[k]).id != id,
        decreases v.len() - i,
    {
        if v[i].id == id {
            proof {
                lemma_title_pos(s, id);
                if let Some(p) = title_pos(s, id) {
                    if p > i {
                        assert(s[i as int].id == id);
                    }
                }
            }
            return Some(i);
        }
        i = i + 1;
    }
    proof { lemma_title_pos(s, id); }
    None
}

/// Index of the first marathon entry of title `id`.
fn find_marathon(v: &Vec<MarathonItem>, id: u64) -> (r: Option<usize>)
    ensures
        match r {
            Some(p) => p < v.len() && title_pos(marathon_titles(v@.map_values(|m: MarathonItem| m@)), id) == Some(p as int),
            None => title_pos(marathon_titles(v@.map_values(|m: MarathonItem| m@)), id) is None,
        },
{
    let ghost s = marathon_titles(v@.map_values(|m: MarathonItem| m@));
    let mut i: usize = 0;
    while i < v.len()
        invariant
            i <= v.len(),
            s == marathon_titles(v@.map_values(|m: MarathonItem| m@)),
            forall|k: int| 0 <= k < i ==> (#[trigger] s[k]).id != id,
        decreases v.len() - i,
    {
        if v[i].title.id == id {
            proof {
                lemma_title_pos(s, id);
                if let Some(p) = title_pos(s, id) {
                    if p > i {
                        assert(s[i as int].id == id);
                    }
                }
            }
            return Some(i);
        }
        i = i + 1;
    }
    proof { lemma_title_pos(s, id); }
    None
}

fn copy_marathon_item(m: &MarathonItem) -> (r: MarathonItem)
    ensures
        r@ == m@,
{
    MarathonItem { title: m.title.copy(), completed: m.completed, added_at: m.added_at }
}

// ---------------------------------------------------------------------------
// Operations
// ---------------------------------------------------------------------------

impl State {
    /// No records at all.
    pub fn new() -> (r: State)
        ensures
            r@.current is None,
            r@.watched == Map::<u64, Seq<Watched>>::empty(),
            r@.saved.len() == 0 && r@.history.len() == 0 && r@.marathon.len() == 0,
            !r@.welcome_seen && !r@.quick_search_tip_seen && !r@.search_tip_seen && !r@.right_click_tip_seen,
    {
        let st = State {
            current: None,
            watched: HashMap::new(),
            saved: Vec::new(),
            history: Vec::new(),
            welcome_seen: false,
            quick_search_tip_seen: false,
            search_tip_seen: false,
            right_click_tip_seen: false,
            marathon: Vec::new(),
        };
        assert(st@.watched =~= Map::<u64, Seq<Watched>>::empty());
        st
    }

    /// Whether episode `episode` of season `season` of title `title_id` is
    /// recorded as watched.
    pub fn is_watched(&self, title_id: u64, season: u64, episode: u64) -> (r: bool)
        ensures
            r == has_episode(watched_list(self@, title_id), season, episode),
    {
        match self.watched.get(&title_id) {
            Some(list) => {
                let mut i: usize = 0;
                while i < list.len()
                    invariant
                        i <= list.len(),
                        list@ == watched_list(self@, title_id),
                        forall|k: int| 0 <= k < i ==> !((#[trigger] list@[k]).episode == episode && list@[k].season == season),
                    decreases list.len() - i,
                {
                    if list[i].episode == episode && list[i].season == season {
                        return true;
                    }
                    i = i + 1;
                }
                false
            },
            None => false,
        }
    }

    /// Records only the episode being watched now; the watched lists are
    /// left alone (switching episodes does not mark one watched).
    pub fn set_current(&mut self, w: &Watched)
        ensures
            final(self)@ == (StateView { current: Some(*w), ..old(self)@ }),
    {
        self.current = Some(*w);
    }

    /// Marks an episode watched: it becomes the current one and joins its
    /// title's list (once), which is then ordered by `season * 10000 + episode`.
    pub fn save_watched(&mut self, w: &Watched)
        requires
            keys_fit(watched_list(old(self)@, w.title_id).push(*w)),
        ensures
            final(self)@ == (StateView {
                current: Some(*w),
                watched: old(self)@.watched.insert(
                    w.title_id,
                    record_watched(watched_list(old(self)@, w.title_id), *w),
                ),
                ..old(self)@
            }),
    {
        self.current = Some(*w);
        let tid = w.title_id;
        let ghost old_list = watched_list(old(self)@, tid);
        let mut list: Vec<Watched> = match self.watched.remove(&tid) {
            Some(l) => l,
            None => Vec::new(),
        };
        assert(list@ == old_list);
        let mut found = false;
        let mut i: usize = 0;
        while i < list.len()
            invariant
                i <= list.len(),
                list@ == old_list,
                found == exists|k: int| 0 <= k < i && (#[trigger] list@[k]).episode == w.episode && list@[k].season == w.season,
            decreases list.len() - i,
        {
            if list[i].episode == w.episode && list[i].season == w.season {
                found = true;
            }
            i = i + 1;
        }
        if !found {
            list.push(*w);
        }
        let ghost unsorted = list@;
        assert(unsorted == (if has_episode(old_list, w.season, w.episode) { old_list } else { old_list.push(*w) }));
        let sorted = sort_watched(&list);
        self.watched.insert(tid, sorted);
        assert(self@.watched =~= old(self)@.watched.insert(tid, record_watched(old_list, *w)));
    }

    /// Forgets that an episode was watched (the title keeps its, possibly
    /// empty, list).
    pub fn remove_watched(&mut self, title_id: u64, season: u64, episode: u64)
        ensures
            final(self)@ == (StateView {
                watched: if old(self)@.watched.contains_key(title_id) {
                    old(self)@.watched.insert(title_id, without_episode(old(self)@.watched[title_id], season, episode))
                } else {
                    old(self)@.watched
                },
                ..old(self)@
            }),
    {
        match self.watched.remove(&title_id) {
            Some(list) => {
                let mut out: Vec<Watched> = Vec::new();
                let mut i: usize = 0;
                while i < list.len()
                    invariant
                        i <= list.len(),
                        out@ == without_episode(list@.take(i as int), season, episode),
                    decreases list.len() - i,
                {
                    assert(list@.take(i as int + 1).drop_last() =~= list@.take(i as int));
                    if !(list[i].episode == episode && list[i].season == season) {
                        out.push(list[i]);
                    }
                    i = i + 1;
                }
                assert(list@.take(list.len() as int) =~= list@);
                self.watched.insert(title_id, out);
                assert(self@.watched =~= old(self)@.watched.insert(title_id, without_episode(old(self)@.watched[title_id], season, episode)));
            },
            None => {
                assert(self@.watched =~= old(self)@.watched);
            },
        }
    }

    /// Whether title `id` is a favourite.
    pub fn is_saved(&self, id: u64) -> (r: bool)
        ensures
            r == (title_pos(self@.saved, id) is Some),
    {
        find_title(&self.saved, id).is_some()
    }

    /// Adds a title to the favourites (first place) or removes its first
    /// entry; returns whether it is a favourite now.
    pub fn toggle_saved(&mut self, t: &Title) -> (r: bool)
        ensures
            r == (title_pos(old(self)@.saved, t.id) is None),
            final(self)@ == (StateView { saved: toggle_saved_spec(old(self)@.saved, t@), ..old(self)@ }),
    {
        match find_title(&self.saved, t.id) {
            Some(p) => {
                self.saved.remove(p);
                assert(self@.saved =~= old(self)@.saved.remove(p as int));
                false
            },
            None => {
                let c = t.copy();
                self.saved.insert(0, c);
                assert(self@.saved =~= seq![t@] + old(self)@.saved);
                true
            },
        }
    }

    /// Whether title `id` is on the marathon list.
    pub fn is_in_marathon(&self, id: u64) -> (r: bool)
        ensures
            r == (title_pos(marathon_titles(self@.marathon), id) is Some),
    {
        find_marathon(&self.marathon, id).is_some()
    }

    /// The marathon list, in order.
    pub fn get_marathon(&self) -> (r: Vec<MarathonItem>)
        ensures
            r@.map_values(|m: MarathonItem| m@) == self@.marathon,
    {
        let mut out: Vec<MarathonItem> = Vec::new();
        let mut i: usize = 0;
        while i < self.marathon.len()
            invariant
                i <= self.marathon.len(),
                out.len() == i,
                out@.map_values(|m: MarathonItem| m@) == self@.marathon.take(i as int),
            decreases self.marathon.len() - i,
        {
            let c = copy_marathon_item(&self.marathon[i]);
            assert(c@ == self@.marathon[i as int]);
            out.push(c);
            assert(out@[i as int]@ == self@.marathon[i as int]);
            assert(out@.map_values(|m: MarathonItem| m@) =~= self@.marathon.take(i as int + 1));
            i = i + 1;
        }
        assert(self@.marathon.take(self.marathon.len() as int) =~= self@.marathon);
        out
    }

    /// Adds a title to the end of the marathon list (not completed, added at
    /// `now`) or removes its first entry; returns whether it is on the list now.
    pub fn toggle_marathon(&mut self, t: &Title, now: u64) -> (r: bool)
        ensures
            r == (title_pos(marathon_titles(old(self)@.marathon), t.id) is None),
            final(self)@ == (StateView { marathon: toggle_marathon_spec(old(self)@.marathon, t@, now), ..old(self)@ }),
    {
        match find_marathon(&self.marathon, t.id) {
            Some(p) => {
                self.marathon.remove(p);
                assert(self@.marathon =~= old(self)@.marathon.remove(p as int));
                false
            },
            None => {
                let item = MarathonItem { title: t.copy(), completed: false, added_at: now };
                self.marathon.push(item);
                assert(self@.marathon =~= old(self)@.marathon.push(MarathonView { title: t@, completed: false, added_at: now }));
                true
            },
        }
    }

    /// Flips the completed mark of title `id`'s first marathon entry and
    /// returns the new mark (`false` when the title is not on the list).
    pub fn toggle_marathon_completed(&mut self, id: u64) -> (r: bool)
        ensures
            match title_pos(marathon_titles(old(self)@.marathon), id) {
                Some(p) => {
                    &&& r == !old(self)@.marathon[p].completed
                    &&& final(self)@ == (StateView {
                        marathon: old(self)@.marathon.update(p, MarathonView { completed: r, ..old(self)@.marathon[p] }),
                        ..old(self)@
                    })
                },
                None => !r && final(self)@ == old(self)@,
            },
    {
        match find_marathon(&self.marathon, id) {
            Some(p) => {
                let mut item = self.marathon.remove(p);
                item.completed = !item.completed;
                let r = item.completed;
                self.marathon.insert(p, item);
                assert(self@.marathon =~= old(self)@.marathon.update(p as int, MarathonView { completed: r, ..old(self)@.marathon[p as int] }));
                r
            },
            None => {
                assert(self@ == old(self)@);
                false
            },
        }
    }

    /// Removes every marathon entry of title `id`.
    pub fn remove_from_marathon(&mut self, id: u64)
        ensures
            final(self)@ == (StateView { marathon: marathon_without(old(self)@.marathon, id), ..old(self)@ }),
    {
        let mut out: Vec<MarathonItem> = Vec::new();
        let mut old_m: Vec<MarathonItem> = Vec::new();
        std::mem::swap(&mut old_m, &mut self.marathon);
        assert(old_m@.map_values(|m: MarathonItem| m@) == old(self)@.marathon);
        let ghost ov = old(self)@.marathon;
        let mut i: usize = 0;
        while i < old_m.len()
            invariant
                i <= old_m.len(),
                old_m@.map_values(|m: MarathonItem| m@) == ov,
                out@.map_values(|m: MarathonItem| m@) == marathon_without(ov.take(i as int), id),
            decreases old_m.len() - i,
        {
            assert(ov.take(i as int + 1).drop_last() =~= ov.take(i as int));
            if old_m[i].title.id != id {
                let c = copy_marathon_item(&old_m[i]);
                assert(c@ == ov[i as int]);
                let ghost before = out@;
                out.push(c);
                assert(out@.map_values(|m: MarathonItem| m@) =~= before.map_values(|m: MarathonItem| m@).push(ov[i as int]));
                assert(out@.map_values(|m: MarathonItem| m@) =~= marathon_without(ov.take(i as int), id).push(ov[i as int]));
            }
            i = i + 1;
        }
        assert(ov.take(old_m.len() as int) =~= ov);
        self.marathon = out;
    }

    /// Empties the marathon list.
    pub fn clear_marathon(&mut self)
        ensures
            final(self)@ == (StateView { marathon: Seq::empty(), ..old(self)@ }),
    {
        self.marathon.clear();
        assert(self@.marathon =~= Seq::<MarathonView>::empty());
    }

    /// Moves title `id` on the marathon list to `new_index` (past the end
    /// means last); nothing happens when it is not on the list.
    pub fn reorder_marathon(&mut self, id: u64, new_index: usize)
        ensures
            final(self)@ == (StateView { marathon: reorder_spec(old(self)@.marathon, id, new_index as int), ..old(self)@ }),
    {
        match find_marathon(&self.marathon, id) {
            Some(pos) => {
                if pos == new_index {
                    return;
                }
                let ghost m = old(self)@.marathon;
                let item = self.marathon.remove(pos);
                assert(item@ == m[pos as int]);
                assert(self@.marathon =~= m.remove(pos as int));
                let idx = if new_index < self.marathon.len() { new_index } else { self.marathon.len() };
                let ghost mid = self@.marathon;
                self.marathon.insert(idx, item);
                assert(self@.marathon =~= mid.insert(idx as int, m[pos as int]));
            },
            None => {},
        }
    }

    /// Empties the history.
    pub fn clear_history(&mut self)
        ensures
            final(self)@ == (StateView { history: Seq::empty(), ..old(self)@ }),
    {
        self.history.clear();
        assert(self@.history =~= Seq::<HistoryView>::empty());
    }

    /// Removes the history entries of the given titles.
    pub fn remove_history_items(&mut self, title_ids: &[u64])
        ensures
            final(self)@ == (StateView { history: history_without_any(old(self)@.history, title_ids@), ..old(self)@ }),
    {
        let mut old_h: Vec<HistoryEntry> = Vec::new();
        std::mem::swap(&mut old_h, &mut self.history);
        let ghost hv = old(self)@.history;
        assert(old_h@.map_values(|h: HistoryEntry| h@) == hv);
        let mut out: Vec<HistoryEntry> = Vec::new();
        let mut i: usize = 0;
        while i < old_h.len()
            invariant
                i <= old_h.len(),
                old_h@.map_values(|h: HistoryEntry| h@) == hv,
                out@.map_values(|h: HistoryEntry| h@) == history_without_any(hv.take(i as int), title_ids@),
            decreases old_h.len() - i,
        {
            assert(hv.take(i as int + 1).drop_last() =~= hv.take(i as int));
            let tid = old_h[i].title.id;
            let mut listed = false;
            let mut k: usize = 0;
            while k < title_ids.len()
                invariant
                    k <= title_ids.len(),
                    listed == exists|j: int| 0 <= j < k && title_ids@[j] == tid,
                decreases title_ids.len() - k,
            {
                if title_ids[k] == tid {
                    listed = true;
                }
                k = k + 1;
            }
            assert(listed == title_ids@.contains(tid));
            if !listed {
                let e = HistoryEntry { title: old_h[i].title.copy(), episode: old_h[i].episode.copy(), ts: old_h[i].ts };
                assert(e@ == hv[i as int]);
                let ghost before = out@;
                out.push(e);
                assert(out@.map_values(|h: HistoryEntry| h@) =~= before.map_values(|h: HistoryEntry| h@).push(hv[i as int]));
                assert(out@.map_values(|h: HistoryEntry| h@) =~= history_without_any(hv.take(i as int), title_ids@).push(hv[i as int]));
            }
            i = i + 1;
        }
        assert(hv.take(old_h.len() as int) =~= hv);
        self.history = out;
    }

    /// Records that episode `e` of title `t` was played at time `now`: it
    /// goes first, older entries of that title leave, and only the newest
    /// `HISTORY_LIMIT` entries are kept.
    pub fn add_history(&mut self, t: &Title, e: &Episode, now: u64)
        ensures
            final(self)@ == (StateView { history: add_history_spec(old(self)@.history, t@, e@, now), ..old(self)@ }),
    {
        let mut old_h: Vec<HistoryEntry> = Vec::new();
        std::mem::swap(&mut old_h, &mut self.history);
        let ghost hv = old(self)@.history;
        assert(old_h@.map_values(|h: HistoryEntry| h@) == hv);
        let mut out: Vec<HistoryEntry> = Vec::new();
        out.push(HistoryEntry { title: t.copy(), episode: e.copy(), ts: now });
        let ghost first = seq![HistoryView { title: t@, episode: e@, ts: now }];
        assert(out@.map_values(|h: HistoryEntry| h@) =~= first);
        let mut i: usize = 0;
        while i < old_h.len()
            invariant
                i <= old_h.len(),
                old_h@.map_values(|h: HistoryEntry| h@) == hv,
                out@.map_values(|h: HistoryEntry| h@) == first + history_without(hv.take(i as int), t.id),
            decreases old_h.len() - i,
        {
            assert(hv.take(i as int + 1).drop_last() =~= hv.take(i as int));
            if old_h[i].title.id != t.id {
                let h = HistoryEntry { title: old_h[i].title.copy(), episode: old_h[i].episode.copy(), ts: old_h[i].ts };
                assert(h@ == hv[i as int]);
                let ghost before = out@;
                out.push(h);
                assert(out@.map_values(|h: HistoryEntry| h@) =~= before.map_values(|h: HistoryEntry| h@).push(hv[i as int]));
                assert(out@.map_values(|h: HistoryEntry| h@) =~= first + history_without(hv.take(i as int), t.id).push(hv[i as int]));
            }
            i = i + 1;
        }
        assert(hv.take(old_h.len() as int) =~= hv);
        if out.len() > HISTORY_LIMIT {
            out.truncate(HISTORY_LIMIT);
        }
        assert(out@.map_values(|h: HistoryEntry| h@) =~= add_history_spec(hv, t@, e@, now));
        self.history = out;
    }

    pub fn is_welcome_seen(&self) -> (r: bool)
        ensures
            r == self@.welcome_seen,
    {
        self.welcome_seen
    }

    pub fn set_welcome_seen(&mut self, seen: bool)
        ensures
            final(self)@ == (StateView { welcome_seen: seen, ..old(self)@ }),
    {
        self.welcome_seen = seen;
    }

    pub fn is_quick_search_tip_seen(&self) -> (r: bool)
        ensures
            r == self@.quick_search_tip_seen,
    {
        self.quick_search_tip_seen
    }

    pub fn set_quick_search_tip_seen(&mut self, seen: bool)
        ensures
            final(self)@ == (StateView { quick_search_tip_seen: seen, ..old(self)@ }),
    {
        self.quick_search_tip_seen = seen;
    }

    pub fn is_search_tip_seen(&self) -> (r: bool)
        ensures
            r == self@.search_tip_seen,
    {
        self.search_tip_seen
    }

    pub fn set_search_tip_seen(&mut self, seen: bool)
        ensures
            final(self)@ == (StateView { search_tip_seen: seen, ..old(self)@ }),
    {
        self.search_tip_seen = seen;
    }

    pub fn is_right_click_tip_seen(&self) -> (r: bool)
        ensures
            r == self@.right_click_tip_seen,
    {
        self.right_click_tip_seen
    }

    pub fn set_right_click_tip_seen(&mut self, seen: bool)
        ensures
            final(self)@ == (StateView { right_click_tip_seen: seen, ..old(self)@ }),
    {
        self.right_click_tip_seen = seen;
    }
}

/// Sorts watched episodes by `season * 10000 + episode`, keeping the order
/// of equal keys.
pub fn sort_watched(v: &Vec<Watched>) -> (r: Vec<Watched>)
    ensures
        r@ == sort_by_key(v@),
{
    let mut out: Vec<Watched> = Vec::new();
    let mut i: usize = 0;
    while i < v.len()
        invariant
            i <= v.len(),
            out@ == sort_by_key(v@.take(i as int)),
        decreases v.len() - i,
    {
        assert(v@.take(i as int + 1).drop_last() =~= v@.take(i as int));
        let x = v[i];
        let kx: u128 = (x.season as u128) * 10000 + (x.episode as u128);
        let mut j: usize = out.len();
        assert(out@.take(j as int) =~= out@);
        assert(out@.skip(j as int) =~= Seq::<Watched>::empty());
        assert(insert_by_key(out@, x) =~= insert_by_key(out@.take(j as int), x) + out@.skip(j as int));
        while j > 0 && (out[j - 1].season as u128) * 10000 + (out[j - 1].episode as u128) > kx
            invariant
                j <= out.len(),
                kx == episode_key(x),
                insert_by_key(out@, x) == insert_by_key(out@.take(j as int), x) + out@.skip(j as int),
            decreases j,
        {
            proof {
                assert(out@.take(j as int).drop_last() =~= out@.take(j - 1));
                assert(out@.skip(j - 1) =~= seq![out@[j - 1]] + out@.skip(j as int));
                assert(insert_by_key(out@.take(j as int), x) == insert_by_key(out@.take(j - 1), x).push(out@[j - 1]));
                assert(insert_by_key(out@.take(j - 1), x).push(out@[j - 1]) + out@.skip(j as int)
                    =~= insert_by_key(out@.take(j - 1), x) + out@.skip(j - 1));
            }
            j = j - 1;
        }
        proof {
            if j > 0 {
                assert(out@.take(j as int).drop_last() =~= out@.take(j - 1));
                assert(insert_by_key(out@.take(j as int), x) == out@.take(j as int).push(x));
            } else {
                assert(out@.take(0) =~= Seq::<Watched>::empty());
            }
            assert(out@.take(j as int).push(x) + out@.skip(j as int) =~= out@.insert(j as int, x));
        }
        out.insert(j, x);
        i = i + 1;
    }
    assert(v@.take(v.len() as int) =~= v@);
    out
}

// ---------------------------------------------------------------------------
// Playback progress keys
// ---------------------------------------------------------------------------

/// The (season, episode) texts of a progress key `tid:season:episode` of
/// title `tid`: the first two `:`-separated pieces after `tid:`.
pub open spec fn progress_pair(key: Seq<char>, tid: u64) -> Option<(Seq<char>, Seq<char>)> {
    let prefix = decimal(tid as nat).push(':');
    if starts_with(key, prefix) {
        let p = split_on(key.skip(prefix.len() as int), ':');
        if p.len() >= 2 { Some((p[0], p[1])) } else { None }
    } else {
        None
    }
}

/// The distinct (season, episode) pairs of title `tid` among the keys, in
/// order of first appearance.
pub open spec fn progress_pairs(keys: Seq<Seq<char>>, tid: u64) -> Seq<(Seq<char>, Seq<char>)>
    decreases keys.len(),
{
    if keys.len() == 0 {
        Seq::empty()
    } else {
        let p = progress_pairs(keys.drop_last(), tid);
        match progress_pair(keys.last(), tid) {
            Some(x) => if p.contains(x) { p } else { p.push(x) },
            None => p,
        }
    }
}

/// How many different episodes of title `tid` have a saved playback
/// position, given the keys (`tid:season:episode`) of the saved positions.
pub fn watched_episode_count(keys: &Vec<String>, tid: u64) -> (r: u64)
    ensures
        r == progress_pairs(keys@.map_values(|k: String| k@), tid).len(),
{
    let ghost kv = keys@.map_values(|k: String| k@);
    let mut prefix = u64_decimal(tid);
    prefix.push(':');
    let mut seen: Vec<(Vec<char>, Vec<char>)> = Vec::new();
    let mut i: usize = 0;
    while i < keys.len()
        invariant
            i <= keys.len(),
            kv == keys@.map_values(|k: String| k@),
            prefix@ == decimal(tid as nat).push(':'),
            seen@.map_values(|x: (Vec<char>, Vec<char>)| (x.0@, x.1@)) == progress_pairs(kv.take(i as int), tid),
            seen.len() <= i,
        decreases keys.len() - i,
    {
        assert(kv.take(i as int + 1).drop_last() =~= kv.take(i as int));
        let ghost sv = seen@.map_values(|x: (Vec<char>, Vec<char>)| (x.0@, x.1@));
        let k = chars_of(keys[i].as_str());
        assert(k@ == kv[i as int]);
        assert(k@.subrange(0, k@.len() as int) =~= k@);
        if range_starts_with(&k, 0, k.len(), &prefix) {
            let b = split_bounds(&k, prefix.len(), ':');
            assert(k@.subrange(prefix.len() as int, k@.len() as int) =~= k@.skip(prefix.len() as int));
            if b.len() >= 2 {
                let ghost ps = pieces(k@, b@);
                assert(ps[0] == k@.subrange(b@[0].0 as int, b@[0].1 as int));
                assert(ps[1] == k@.subrange(b@[1].0 as int, b@[1].1 as int));
                let s0 = sub_vec(&k, b[0].0, b[0].1);
                let s1 = sub_vec(&k, b[1].0, b[1].1);
                let ghost x = (s0@, s1@);
                let mut dup = false;
                let mut j: usize = 0;
                while j < seen.len()
                    invariant
                        j <= seen.len(),
                        sv == seen@.map_values(|x: (Vec<char>, Vec<char>)| (x.0@, x.1@)),
                        x == (s0@, s1@),
                        dup == exists|m: int| 0 <= m < j && sv[m] == x,
                    decreases seen.len() - j,
                {
                    if chars_eq(&seen[j].0, &s0) && chars_eq(&seen[j].1, &s1) {
                        dup = true;
                        assert(sv[j as int] == x);
                    }
                    j = j + 1;
                }
                assert(dup == sv.contains(x));
                if !dup {
                    seen.push((s0, s1));
                    assert(seen@.map_values(|x: (Vec<char>, Vec<char>)| (x.0@, x.1@)) =~= sv.push(x));
                }
            }
        }
        i = i + 1;
    }
    assert(kv.take(keys.len() as int) =~= kv);
    seen.len() as u64
}

// ---------------------------------------------------------------------------
// Laws
// ---------------------------------------------------------------------------

/// Toggling a title that is not a favourite twice leaves the favourites as
/// they were.
pub proof fn lemma_toggle_saved_twice(s: Seq<TitleView>, t: TitleView)
    requires
        title_pos(s, t.id) is None,
    ensures
        toggle_saved_spec(toggle_saved_spec(s, t), t) == s,
{
    let once = seq![t] + s;
    assert(once[0].id == t.id);
    assert(title_pos(once, t.id) == Some(0int));
    assert(once.remove(0) =~= s);
}

proof fn lemma_title_pos_last(s: Seq<TitleView>, x: TitleView)
    requires
        title_pos(s, x.id) is None,
    ensures
        title_pos(s.push(x), x.id) == Some(s.len() as int),
{
    lemma_title_pos(s, x.id);
    let n = s.push(x);
    lemma_title_pos(n, x.id);
    assert(n[s.len() as int].id == x.id);
    if let Some(p) = title_pos(n, x.id) {
        if p < s.len() {
            assert(n[p] == s[p]);
        }
    }
}

/// Toggling a title that is not on the marathon list twice leaves the list
/// as it was.
pub proof fn lemma_toggle_marathon_twice(m: Seq<MarathonView>, t: TitleView, now: u64)
    requires
        title_pos(marathon_titles(m), t.id) is None,
    ensures
        toggle_marathon_spec(toggle_marathon_spec(m, t, now), t, now) == m,
{
    let x = MarathonView { title: t, completed: false, added_at: now };
    let once = m.push(x);
    assert(marathon_titles(once) =~= marathon_titles(m).push(t));
    lemma_title_pos_last(marathon_titles(m), t);
    assert(once.remove(m.len() as int) =~= m);
}

/// Whether no two titles of the list share an id.
pub open spec fn unique_ids(s: Seq<TitleView>) -> bool {
    forall|i: int, j: int| 0 <= i < j < s.len() ==> (#[trigger] s[i]).id != (#[trigger] s[j]).id
}

/// When a title appears at most once among the favourites, `toggle_saved`
/// answers whether it is a favourite afterwards.
pub proof fn lemma_toggle_saved_reports_membership(s: Seq<TitleView>, t: TitleView)
    requires
        unique_ids(s),
    ensures
        (title_pos(toggle_saved_spec(s, t), t.id) is Some) == (title_pos(s, t.id) is None),
{
    lemma_title_pos(s, t.id);
    match title_pos(s, t.id) {
        Some(p) => {
            let r = s.remove(p);
            lemma_title_pos(r, t.id);
            assert forall|i: int| 0 <= i < r.len() implies (#[trigger] r[i]).id != t.id by {
                if i < p {
                    assert(r[i] == s[i]);
                } else {
                    assert(r[i] == s[i + 1]);
                }
            }
        },
        None => {
            let r = seq![t] + s;
            assert(r[0].id == t.id);
        },
    }
}

/// Moving a marathon entry keeps the same entries, and the moved entry ends
/// up at the requested place (the last one when the place is past the end).
pub proof fn lemma_reorder_keeps_entries(m: Seq<MarathonView>, id: u64, new_index: int)
    requires
        new_index >= 0,
    ensures
        reorder_spec(m, id, new_index).to_multiset() == m.to_multiset(),
        reorder_spec(m, id, new_index).len() == m.len(),
        title_pos(marathon_titles(m), id) matches Some(pos) ==> ({
            let idx = if new_index < m.len() - 1 { new_index } else { m.len() - 1 };
            reorder_spec(m, id, new_index)[idx] == m[pos]
        }),
{
    broadcast use vstd::seq_lib::group_to_multiset_ensures;
    lemma_title_pos(marathon_titles(m), id);
    if let Some(pos) = title_pos(marathon_titles(m), id) {
        if pos != new_index {
            let rest = m.remove(pos);
            let idx = if new_index < rest.len() { new_index } else { rest.len() as int };
            vstd::seq_lib::to_multiset_remove(m, pos);
            vstd::seq_lib::to_multiset_insert(rest, idx, m[pos]);
            assert(m.to_multiset().contains(m[pos]));
            assert(m.to_multiset().remove(m[pos]).insert(m[pos]) =~= m.to_multiset());
        }
    }
}

/// No title of the list is `id`.
pub open spec fn no_title(s: Seq<HistoryView>, id: u64) -> bool {
    forall|i: int| 0 <= i < s.len() ==> (#[trigger] s[i]).title.id != id
}

/// No two history entries are about the same title.
pub open spec fn unique_history(s: Seq<HistoryView>) -> bool {
    forall|i: int, j: int| 0 <= i < j < s.len() ==> (#[trigger] s[i]).title.id != (#[trigger] s[j]).title.id
}

proof fn lemma_history_without(h: Seq<HistoryView>, id: u64)
    ensures
        no_title(history_without(h, id), id),
        history_without(h, id).len() <= h.len(),
        forall|i: int| 0 <= i < history_without(h, id).len() ==> exists|j: int|
            0 <= j < h.len() && h[j] == #[trigger] history_without(h, id)[i],
        unique_history(h) ==> unique_history(history_without(h, id)),
    decreases h.len(),
{
    if h.len() > 0 {
        let p = h.drop_last();
        lemma_history_without(p, id);
        let r = history_without(h, id);
        let pr = history_without(p, id);
        assert forall|i: int| 0 <= i < r.len() implies exists|j: int|
            0 <= j < h.len() && h[j] == #[trigger] r[i] by {
            if i < pr.len() {
                let j = choose|j: int| 0 <= j < p.len() && p[j] == pr[i];
                assert(h[j] == p[j]);
            } else {
                assert(h[h.len() - 1] == r[i]);
            }
        }
        if unique_history(h) {
            assert(unique_history(p)) by {
                assert forall|i: int, j: int| 0 <= i < j < p.len() implies (#[trigger] p[i]).title.id != (#[trigger] p[j]).title.id by {
                    assert(p[i] == h[i] && p[j] == h[j]);
                }
            }
            if h.last().title.id != id {
                assert forall|i: int, j: int| 0 <= i < j < r.len() implies (#[trigger] r[i]).title.id != (#[trigger] r[j]).title.id by {
                    if j == r.len() - 1 {
                        let k = choose|k: int| 0 <= k < p.len() && p[k] == pr[i];
                        assert(h[k] == p[k]);
                        assert(h[h.len() - 1] == r[j]);
                    } else {
                        assert(r[i] == pr[i] && r[j] == pr[j]);
                    }
                }
            }
        }
    }
}

/// After `add_history`, the new entry comes first, no other entry is about
/// the same title, at most `HISTORY_LIMIT` entries remain, and a history
/// without repeated titles stays without repeated titles.
pub proof fn lemma_add_history(h: Seq<HistoryView>, t: TitleView, e: EpisodeView, now: u64)
    ensures
        ({
            let r = add_history_spec(h, t, e, now);
            &&& r.len() >= 1
            &&& r[0] == (HistoryView { title: t, episode: e, ts: now })
            &&& r.len() <= HISTORY_LIMIT
            &&& no_title(r.drop_first(), t.id)
            &&& unique_history(h) ==> unique_history(r)
        }),
{
    lemma_history_without(h, t.id);
    let w = history_without(h, t.id);
    let x = HistoryView { title: t, episode: e, ts: now };
    let all = seq![x] + w;
    let r = add_history_spec(h, t, e, now);
    assert forall|i: int| 0 <= i < r.drop_first().len() implies (#[trigger] r.drop_first()[i]).title.id != t.id by {
        assert(r.drop_first()[i] == all[i + 1]);
        assert(all[i + 1] == w[i]);
    }
    if unique_history(h) {
        assert forall|i: int, j: int| 0 <= i < j < r.len() implies (#[trigger] r[i]).title.id != (#[trigger] r[j]).title.id by {
            assert(r[i] == all[i] && r[j] == all[j]);
            if i == 0 {
                assert(all[j] == w[j - 1]);
            } else {
                assert(all[i] == w[i - 1] && all[j] == w[j - 1]);
            }
        }
    }
}

proof fn lemma_insert_by_key_members(s: Seq<Watched>, x: Watched)
    ensures
        insert_by_key(s, x).len() == s.len() + 1,
        insert_by_key(s, x).contains(x),
        forall|i: int| 0 <= i < s.len() ==> insert_by_key(s, x).contains(#[trigger] s[i]),
        forall|i: int| 0 <= i < insert_by_key(s, x).len() ==> (#[trigger] insert_by_key(s, x)[i] == x
            || s.contains(insert_by_key(s, x)[i])),
    decreases s.len(),
{
    let r = insert_by_key(s, x);
    if s.len() == 0 {
        assert(r[0] == x);
    } else if episode_key(s.last()) <= episode_key(x) {
        assert(r[s.len() as int] == x);
        assert forall|i: int| 0 <= i < s.len() implies r.contains(#[trigger] s[i]) by {
            assert(r[i] == s[i]);
        }
        assert forall|i: int| 0 <= i < r.len() implies (#[trigger] r[i] == x || s.contains(r[i])) by {
            if i < s.len() {
                assert(r[i] == s[i]);
            }
        }
    } else {
        let p = s.drop_last();
        lemma_insert_by_key_members(p, x);
        let q = insert_by_key(p, x);
        let k = choose|k: int| 0 <= k < q.len() && q[k] == x;
        assert(r[k] == x);
        assert forall|i: int| 0 <= i < s.len() implies r.contains(#[trigger] s[i]) by {
            if i < p.len() {
                assert(p[i] == s[i]);
                let k = choose|k: int| 0 <= k < q.len() && q[k] == p[i];
                assert(r[k] == s[i]);
            } else {
                assert(r[q.len() as int] == s[i]);
            }
        }
        assert forall|i: int| 0 <= i < r.len() implies (#[trigger] r[i] == x || s.contains(r[i])) by {
            if i < q.len() {
                assert(r[i] == q[i]);
                if q[i] != x {
                    let k = choose|k: int| 0 <= k < p.len() && p[k] == q[i];
                    assert(s[k] == p[k]);
                }
            } else {
                assert(r[i] == s[s.len() - 1]);
            }
        }
    }
}

proof fn lemma_sort_by_key_members(s: Seq<Watched>)
    ensures
        sort_by_key(s).len() == s.len(),
        forall|i: int| 0 <= i < s.len() ==> sort_by_key(s).contains(#[trigger] s[i]),
        forall|i: int| 0 <= i < sort_by_key(s).len() ==> s.contains(#[trigger] sort_by_key(s)[i]),
    decreases s.len(),
{
    if s.len() > 0 {
        let p = s.drop_last();
        lemma_sort_by_key_members(p);
        let q = sort_by_key(p);
        lemma_insert_by_key_members(q, s.last());
        let r = sort_by_key(s);
        assert forall|i: int| 0 <= i < s.len() implies r.contains(#[trigger] s[i]) by {
            if i < p.len() {
                assert(p[i] == s[i]);
                let k = choose|k: int| 0 <= k < q.len() && q[k] == p[i];
                assert(r.contains(q[k]));
            }
        }
        assert forall|i: int| 0 <= i < r.len() implies s.contains(#[trigger] r[i]) by {
            if r[i] != s.last() {
                assert(q.contains(r[i]));
                let k = choose|k: int| 0 <= k < q.len() && q[k] == r[i];
                let m = choose|m: int| 0 <= m < p.len() && p[m] == q[k];
                assert(s[m] == p[m]);
            } else {
                assert(s[s.len() - 1] == r[i]);
            }
        }
    }
}

/// Whether the list is in non-decreasing `season * 10000 + episode` order.
pub open spec fn keys_sorted(l: Seq<Watched>) -> bool {
    forall|i: int, j: int| 0 <= i < j < l.len() ==> episode_key(#[trigger] l[i]) <= episode_key(#[trigger] l[j])
}

proof fn lemma_insert_by_key_sorted(s: Seq<Watched>, x: Watched)
    requires
        keys_sorted(s),
    ensures
        keys_sorted(insert_by_key(s, x)),
    decreases s.len(),
{
    lemma_insert_by_key_members(s, x);
    let r = insert_by_key(s, x);
    if s.len() > 0 && episode_key(s.last()) > episode_key(x) {
        let p = s.drop_last();
        assert(keys_sorted(p)) by {
            assert forall|i: int, j: int| 0 <= i < j < p.len() implies episode_key(#[trigger] p[i]) <= episode_key(#[trigger] p[j]) by {
                assert(p[i] == s[i] && p[j] == s[j]);
            }
        }
        lemma_insert_by_key_sorted(p, x);
        lemma_insert_by_key_members(p, x);
        let q = insert_by_key(p, x);
        assert forall|i: int, j: int| 0 <= i < j < r.len() implies episode_key(#[trigger] r[i]) <= episode_key(#[trigger] r[j]) by {
            if j < q.len() {
                assert(r[i] == q[i] && r[j] == q[j]);
            } else {
                assert(r[i] == q[i]);
                assert(r[j] == s.last());
                if q[i] != x {
                    let k = choose|k: int| 0 <= k < p.len() && p[k] == q[i];
                    assert(s[k] == p[k]);
                }
            }
        }
    } else if s.len() > 0 {
        assert forall|i: int, j: int| 0 <= i < j < r.len() implies episode_key(#[trigger] r[i]) <= episode_key(#[trigger] r[j]) by {
            if j < s.len() {
                assert(r[i] == s[i] && r[j] == s[j]);
            } else {
                assert(r[i] == s[i]);
                if i < s.len() - 1 {
                    assert(episode_key(s[i]) <= episode_key(s[s.len() - 1]));
                }
            }
        }
    }
}

proof fn lemma_sort_by_key_sorted(s: Seq<Watched>)
    ensures
        keys_sorted(sort_by_key(s)),
    decreases s.len(),
{
    if s.len() > 0 {
        lemma_sort_by_key_sorted(s.drop_last());
        lemma_insert_by_key_sorted(sort_by_key(s.drop_last()), s.last());
    }
}

/// After an episode is marked watched it reads as watched, its title's list
/// is in episode order, and every episode listed before is still listed.
pub proof fn lemma_save_then_watched(l: Seq<Watched>, w: Watched)
    ensures
        has_episode(record_watched(l, w), w.season, w.episode),
        keys_sorted(record_watched(l, w)),
        forall|i: int| 0 <= i < l.len() ==> record_watched(l, w).contains(#[trigger] l[i]),
{
    let u = if has_episode(l, w.season, w.episode) { l } else { l.push(w) };
    lemma_sort_by_key_members(u);
    lemma_sort_by_key_sorted(u);
    let r = sort_by_key(u);
    if has_episode(l, w.season, w.episode) {
        let k = choose|k: int| 0 <= k < l.len() && (#[trigger] l[k]).episode == w.episode && l[k].season == w.season;
        let m = choose|m: int| 0 <= m < r.len() && r[m] == l[k];
        assert(r[m].episode == w.episode && r[m].season == w.season);
    } else {
        assert(u[l.len() as int] == w);
        let m = choose|m: int| 0 <= m < r.len() && r[m] == u[l.len() as int];
        assert(r[m].episode == w.episode);
    }
    assert forall|i: int| 0 <= i < l.len() implies r.contains(#[trigger] l[i]) by {
        assert(u[i] == l[i]);
    }
}

/// After an episode is unmarked it no longer reads as watched.
pub proof fn lemma_remove_then_unwatched(l: Seq<Watched>, season: u64, episode: u64)
    ensures
        !has_episode(without_episode(l, season, episode), season, episode),
    decreases l.len(),
{
    if l.len() > 0 {
        lemma_remove_then_unwatched(l.drop_last(), season, episode);
        let p = without_episode(l.drop_last(), season, episode);
        let r = without_episode(l, season, episode);
        if has_episode(r, season, episode) {
            let k = choose|k: int| 0 <= k < r.len() && (#[trigger] r[k]).episode == episode && r[k].season == season;
            if k < p.len() {
                assert(r[k] == p[k]);
            }
        }
    }
}

/// After `remove_from_marathon(id)` no entry of that title is left.
pub proof fn lemma_removed_from_marathon(m: Seq<MarathonView>, id: u64)
    ensures
        title_pos(marathon_titles(marathon_without(m, id)), id) is None,
    decreases m.len(),
{
    if m.len() > 0 {
        lemma_removed_from_marathon(m.drop_last(), id);
        let p = marathon_without(m.drop_last(), id);
        let r = marathon_without(m, id);
        lemma_title_pos(marathon_titles(p), id);
        lemma_title_pos(marathon_titles(r), id);
        assert forall|i: int| 0 <= i < r.len() implies (#[trigger] marathon_titles(r)[i]).id != id by {
            if i < p.len() {
                assert(r[i] == p[i]);
                assert(marathon_titles(p)[i].id != id);
            }
        }
    }
}

} // verus!
