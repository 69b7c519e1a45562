//! The translator tour of a batch download: for every episode one
//! translator (fansub) is picked, optionally through a common translator
//! offered by every episode, and the tour ends with a summary.
//!
//! A translator's rating is held as an ordering key (`rating_key`): a higher
//! key is a better rating, equal keys are equal ratings.

use vstd::prelude::*;
use crate::catalog::Episode;
use crate::text::{chars_of, extend_chars, extend_str, string_from, u64_decimal, u64_decimal2, decimal, decimal2};

verus! {

/// One translator of an episode.
pub struct FansubInfo {
    pub template_id: i64,
    pub name: String,
    pub rating_key: i64,
}

/// A translator seen as plain values.
pub struct FansubView {
    pub template_id: i64,
    pub name: Seq<char>,
    pub rating_key: i64,
}

impl View for FansubInfo {
    type V = FansubView;

    open spec fn view(&self) -> FansubView {
        FansubView { template_id: self.template_id, name: self.name@, rating_key: self.rating_key }
    }
}

impl FansubInfo {
    /// A field-for-field copy.
    pub fn copy(&self) -> (r: FansubInfo)
        ensures
            r@ == self@,
    {
        FansubInfo { template_id: self.template_id, name: self.name.clone(), rating_key: self.rating_key }
    }
}

pub open spec fn fansub_views(l: Seq<FansubInfo>) -> Seq<FansubView> {
    l.map_values(|f: FansubInfo| f@)
}

/// Whether list `l` has a translator of template `t`.
pub open spec fn offers(l: Seq<FansubInfo>, t: i64) -> bool {
    exists|j: int| 0 <= j < l.len() && l[j].template_id == t
}

/// Whether every episode after the first offers template `t`.
pub open spec fn offered_by_rest(items: Seq<(Episode, Vec<FansubInfo>)>, t: i64) -> bool {
    forall|k: int| 1 <= k < items.len() ==> offers(#[trigger] items[k].1@, t)
}

/// The translators of `l` that every later episode offers too, in order.
pub open spec fn shared_of(items: Seq<(Episode, Vec<FansubInfo>)>, l: Seq<FansubView>) -> Seq<FansubView>
    decreases l.len(),
{
    if l.len() == 0 {
        Seq::empty()
    } else if offered_by_rest(items, l.last().template_id) {
        shared_of(items, l.drop_last()).push(l.last())
    } else {
        shared_of(items, l.drop_last())
    }
}

/// `x` put after every translator rated at least as well.
pub open spec fn rating_insert(s: Seq<FansubView>, x: FansubView) -> Seq<FansubView>
    decreases s.len(),
{
    if s.len() == 0 {
        seq![x]
    } else if x.rating_key > s[0].rating_key {
        seq![x] + s
    } else {
        seq![s[0]] + rating_insert(s.drop_first(), x)
    }
}

/// The stable order by rating, best first.
pub open spec fn rating_sorted(s: Seq<FansubView>) -> Seq<FansubView>
    decreases s.len(),
{
    if s.len() == 0 {
        Seq::empty()
    } else {
        rating_insert(rating_sorted(s.drop_last()), s.last())
    }
}

/// The translators offered by every episode: those of the first episode
/// that all the others offer too, best rated first (equal ratings in the
/// first episode's order); none for no episodes.
pub open spec fn common_spec(items: Seq<(Episode, Vec<FansubInfo>)>) -> Seq<FansubView> {
    if items.len() == 0 {
        Seq::empty()
    } else {
        rating_sorted(shared_of(items, fansub_views(items[0].1@)))
    }
}

fn offers_exec(l: &Vec<FansubInfo>, t: i64) -> (r: bool)
    ensures
        r == offers(l@, t),
{
    let mut j: usize = 0;
    while j < l.len()
        invariant
            j <= l.len(),
            forall|k: int| 0 <= k < j ==> l@[k].template_id != t,
        decreases l.len() - j,
    {
        if l[j].template_id == t {
            return true;
        }
        j = j + 1;
    }
    false
}

fn offered_by_rest_exec(items: &[(Episode, Vec<FansubInfo>)], t: i64) -> (r: bool)
    ensures
        r == offered_by_rest(items@, t),
{
    let mut k: usize = 1;
    while k < items.len()
        invariant
            1 <= k,
            forall|m: int| 1 <= m < k && m < items@.len() ==> offers(#[trigger] items@[m].1@, t),
        decreases items.len() - k,
    {
        if !offers_exec(&items[k].1, t) {
            assert(!offers(items@[k as int].1@, t));
            return false;
        }
        k = k + 1;
    }
    true
}

fn rating_insert_exec(s: &mut Vec<FansubInfo>, x: FansubInfo)
    ensures
        fansub_views(final(s)@) == rating_insert(fansub_views(old(s)@), x@),
{
    let ghost s0 = fansub_views(s@);
    let ghost xv = x@;
    let mut p: usize = 0;
    assert(s0.skip(0) =~= s0);
    assert(s0.take(0) + rating_insert(s0, xv) =~= rating_insert(s0, xv));
    while p < s.len() && !(x.rating_key > s[p].rating_key)
        invariant
            p <= s.len(),
            fansub_views(s@) == s0,
            xv == x@,
            rating_insert(s0, xv) == s0.take(p as int) + rating_insert(s0.skip(p as int), xv),
        decreases s.len() - p,
    {
        assert(s0.skip(p as int).drop_first() =~= s0.skip(p + 1));
        assert(s0[p as int].rating_key == s@[p as int].rating_key);
        assert(s0.skip(p as int)[0] == s0[p as int]);
        assert(s0.skip(p as int).len() > 0);
        assert(rating_insert(s0.skip(p as int), xv) == seq![s0[p as int]] + rating_insert(s0.skip(p + 1), xv));
        assert(s0.take(p as int) + seq![s0[p as int]] =~= s0.take(p + 1));
        assert(s0.take(p as int) + (seq![s0[p as int]] + rating_insert(s0.skip(p + 1), xv))
            =~= s0.take(p + 1) + rating_insert(s0.skip(p + 1), xv));
        p = p + 1;
    }
    s.insert(p, x);
    proof {
        if p < s0.len() {
            assert(s0[p as int].rating_key == old(s)@[p as int].rating_key);
            assert(s0.skip(p as int)[0] == s0[p as int]);
            assert(rating_insert(s0.skip(p as int), xv) == seq![xv] + s0.skip(p as int));
        } else {
            assert(s0.skip(p as int) =~= Seq::<FansubView>::empty());
        }
        assert(fansub_views(s@) =~= s0.take(p as int) + rating_insert(s0.skip(p as int), xv));
    }
}

/// The translators that every episode offers, best rated first.
pub fn common_fansubs(items: &[(Episode, Vec<FansubInfo>)]) -> (r: Vec<FansubInfo>)
    ensures
        fansub_views(r@) == common_spec(items@),
{
    if items.len() == 0 {
        return Vec::new();
    }
    let first = &items[0].1;
    let ghost fv = fansub_views(first@);
    let mut sorted: Vec<FansubInfo> = Vec::new();
    let ghost mut shared: Seq<FansubView> = Seq::empty();
    let mut i: usize = 0;
    while i < first.len()
        invariant
            i <= first.len(),
            items.len() > 0,
            first == &items@[0].1,
            fv == fansub_views(first@),
            shared == shared_of(items@, fv.take(i as int)),
            fansub_views(sorted@) == rating_sorted(shared),
        decreases first.len() - i,
    {
        assert(fv.take(i as int + 1).drop_last() =~= fv.take(i as int));
        assert(fv.take(i as int + 1).last() == first@[i as int]@);
        if offered_by_rest_exec(items, first[i].template_id) {
            let c = first[i].copy();
            rating_insert_exec(&mut sorted, c);
            proof {
                let ns = shared.push(first@[i as int]@);
                assert(ns.drop_last() =~= shared);
                shared = ns;
            }
        }
        i = i + 1;
    }
    assert(fv.take(first.len() as int) =~= fv);
    sorted
}


/// Ratings in order, best first.
pub open spec fn rating_desc(s: Seq<FansubView>) -> bool {
    forall|i: int, j: int| 0 <= i < j < s.len() ==> s[i].rating_key >= s[j].rating_key
}

proof fn lemma_rating_insert(s: Seq<FansubView>, x: FansubView)
    requires
        rating_desc(s),
    ensures
        rating_desc(rating_insert(s, x)),
        rating_insert(s, x).to_multiset() == s.to_multiset().insert(x),
        rating_insert(s, x).len() == s.len() + 1,
    decreases s.len(),
{
    broadcast use vstd::seq_lib::group_to_multiset_ensures;
    if s.len() == 0 {
        assert(seq![x] =~= Seq::<FansubView>::empty().push(x));
    } else if x.rating_key > s[0].rating_key {
        let r = seq![x] + s;
        assert(r =~= s.insert(0, x));
        vstd::seq_lib::to_multiset_insert(s, 0, x);
        assert forall|i: int, j: int| 0 <= i < j < r.len() implies r[i].rating_key >= r[j].rating_key by {
            if i > 0 {
                assert(r[i] == s[i - 1] && r[j] == s[j - 1]);
            } else {
                assert(r[j] == s[j - 1]);
            }
        }
    } else {
        let t = s.drop_first();
        assert forall|i: int, j: int| 0 <= i < j < t.len() implies t[i].rating_key >= t[j].rating_key by {
            assert(t[i] == s[i + 1] && t[j] == s[j + 1]);
        }
        lemma_rating_insert(t, x);
        let it = rating_insert(t, x);
        let r = seq![s[0]] + it;
        assert(s =~= t.insert(0, s[0]));
        assert(r =~= it.insert(0, s[0]));
        vstd::seq_lib::to_multiset_insert(t, 0, s[0]);
        vstd::seq_lib::to_multiset_insert(it, 0, s[0]);
        assert forall|j: int| 0 <= j < it.len() implies s[0].rating_key >= #[trigger] it[j].rating_key by {
            assert(it.to_multiset().count(it[j]) > 0);
            assert(t.to_multiset().insert(x).count(it[j]) > 0);
            if it[j] != x {
                assert(t.to_multiset().count(it[j]) > 0);
                assert(t.contains(it[j]));
                let k = choose|k: int| 0 <= k < t.len() && t[k] == it[j];
                assert(s[k + 1] == t[k]);
            }
        }
        assert forall|i: int, j: int| 0 <= i < j < r.len() implies r[i].rating_key >= r[j].rating_key by {
            if i > 0 {
                assert(r[i] == it[i - 1] && r[j] == it[j - 1]);
            } else {
                assert(r[j] == it[j - 1]);
            }
        }
        assert(s.to_multiset().insert(x) =~= t.to_multiset().insert(x).insert(s[0]));
    }
}

proof fn lemma_rating_sorted(s: Seq<FansubView>)
    ensures
        rating_desc(rating_sorted(s)),
        rating_sorted(s).to_multiset() == s.to_multiset(),
    decreases s.len(),
{
    broadcast use vstd::seq_lib::group_to_multiset_ensures;
    if s.len() > 0 {
        lemma_rating_sorted(s.drop_last());
        lemma_rating_insert(rating_sorted(s.drop_last()), s.last());
        assert(s =~= s.drop_last().push(s.last()));
    }
}

proof fn lemma_shared_of(items: Seq<(Episode, Vec<FansubInfo>)>, l: Seq<FansubView>)
    ensures
        forall|x: FansubView| #[trigger] shared_of(items, l).contains(x)
            <==> (l.contains(x) && offered_by_rest(items, x.template_id)),
    decreases l.len(),
{
    if l.len() > 0 {
        let d = l.drop_last();
        lemma_shared_of(items, d);
        let sd = shared_of(items, d);
        assert forall|x: FansubView| l.contains(x) <==> (d.contains(x) || x == l.last()) by {
            if l.contains(x) {
                let j = choose|j: int| 0 <= j < l.len() && l[j] == x;
                if j < l.len() - 1 {
                    assert(d[j] == x);
                }
            }
            if d.contains(x) {
                let j = choose|j: int| 0 <= j < d.len() && d[j] == x;
                assert(l[j] == x);
            }
            if x == l.last() {
                assert(l[l.len() - 1] == x);
            }
        }
        if offered_by_rest(items, l.last().template_id) {
            let r = sd.push(l.last());
            assert forall|x: FansubView| r.contains(x) <==> (sd.contains(x) || x == l.last()) by {
                if r.contains(x) {
                    let j = choose|j: int| 0 <= j < r.len() && r[j] == x;
                    if j < sd.len() {
                        assert(sd[j] == x);
                    }
                }
                if sd.contains(x) {
                    let j = choose|j: int| 0 <= j < sd.len() && sd[j] == x;
                    assert(r[j] == x);
                }
                if x == l.last() {
                    assert(r[r.len() - 1] == x);
                }
            }
        }
    }
}

/// What the common translators are: rated best first, and exactly the first
/// episode's translators whose template every other episode offers.
pub proof fn lemma_common_fansubs(items: Seq<(Episode, Vec<FansubInfo>)>)
    requires
        items.len() > 0,
    ensures
        rating_desc(common_spec(items)),
        forall|x: FansubView| #[trigger] common_spec(items).contains(x)
            <==> (fansub_views(items[0].1@).contains(x) && offered_by_rest(items, x.template_id)),
{
    broadcast use vstd::seq_lib::group_to_multiset_ensures;
    let l = fansub_views(items[0].1@);
    let sh = shared_of(items, l);
    lemma_rating_sorted(sh);
    lemma_shared_of(items, l);
    let c = common_spec(items);
    assert forall|x: FansubView| c.contains(x) <==> sh.contains(x) by {
        assert(c.to_multiset().count(x) == sh.to_multiset().count(x));
    }
}


// ---------------------------------------------------------------------------
// Finding a template in a list
// ---------------------------------------------------------------------------

/// Position of the first translator of template `t` in `l`.
pub open spec fn first_offer(l: Seq<FansubInfo>, t: i64) -> Option<int>
    decreases l.len(),
{
    if l.len() == 0 {
        None
    } else {
        match first_offer(l.drop_last(), t) {
            Some(j) => Some(j),
            None => if l.last().template_id == t { Some(l.len() - 1) } else { None },
        }
    }
}

proof fn lemma_first_offer(l: Seq<FansubInfo>, t: i64)
    ensures
        first_offer(l, t) is None <==> !offers(l, t),
        first_offer(l, t) matches Some(j) ==> 0 <= j < l.len() && l[j].template_id == t
            && forall|k: int| 0 <= k < j ==> l[k].template_id != t,
    decreases l.len(),
{
    if l.len() > 0 {
        let d = l.drop_last();
        lemma_first_offer(d, t);
        if offers(l, t) && first_offer(d, t) is None {
            let j = choose|j: int| 0 <= j < l.len() && l[j].template_id == t;
            if j < l.len() - 1 {
                assert(d[j].template_id == t);
            }
        }
        if offers(d, t) {
            let j = choose|j: int| 0 <= j < d.len() && d[j].template_id == t;
            assert(l[j].template_id == t);
        }
        if let Some(j) = first_offer(d, t) {
            assert forall|k: int| 0 <= k < j implies l[k].template_id != t by {
                assert(l[k] == d[k]);
            }
        } else {
            assert forall|k: int| 0 <= k < l.len() - 1 implies l[k].template_id != t by {
                assert(l[k] == d[k]);
            }
        }
    }
}

fn first_offer_exec(l: &[FansubInfo], t: i64) -> (r: Option<usize>)
    ensures
        match first_offer(l@, t) {
            Some(j) => r == Some(j as usize),
            None => r is None,
        },
{
    let mut j: usize = 0;
    while j < l.len()
        invariant
            j <= l.len(),
            first_offer(l@.take(j as int), t) is None,
        decreases l.len() - j,
    {
        assert(l@.take(j as int + 1).drop_last() =~= l@.take(j as int));
        if l[j].template_id == t {
            proof {
                assert(first_offer(l@.take(j as int + 1), t) == Some(j as int));
                lemma_prefix_first_offer(l@, t, j as int + 1);
            }
            return Some(j);
        }
        j = j + 1;
    }
    assert(l@.take(l.len() as int) =~= l@);
    None
}

/// A first offer found in a prefix is the first offer of the whole list.
proof fn lemma_prefix_first_offer(l: Seq<FansubInfo>, t: i64, n: int)
    requires
        0 <= n <= l.len(),
        first_offer(l.take(n), t) is Some,
    ensures
        first_offer(l, t) == first_offer(l.take(n), t),
    decreases l.len() - n,
{
    if n < l.len() {
        assert(l.take(n + 1).drop_last() =~= l.take(n));
        lemma_prefix_first_offer(l, t, n + 1);
    } else {
        assert(l.take(n) =~= l);
    }
}

/// The first translator of template `template_id` in `list`, if any.
pub fn find_template(list: &[FansubInfo], template_id: i64) -> (r: Option<FansubInfo>)
    ensures
        match first_offer(list@, template_id) {
            Some(j) => r matches Some(f) && f@ == list@[j]@,
            None => r is None,
        },
{
    proof { lemma_first_offer(list@, template_id); }
    match first_offer_exec(list, template_id) {
        Some(j) => Some(list[j].copy()),
        None => None,
    }
}

// ---------------------------------------------------------------------------
// The tour
// ---------------------------------------------------------------------------

/// A page of the tour: the common translators, one episode (by its index
/// among the items), or the summary.
#[derive(Clone, Copy, PartialEq, Eq, Structural, Debug)]
pub enum PageKind {
    Common,
    Ep(usize),
    Summary,
}

/// The indices of the episodes that have translators, in order.
pub open spec fn tour_spec(items: Seq<(Episode, Vec<FansubInfo>)>) -> Seq<usize>
    decreases items.len(),
{
    if items.len() == 0 {
        Seq::empty()
    } else if items.last().1@.len() > 0 {
        tour_spec(items.drop_last()).push((items.len() - 1) as usize)
    } else {
        tour_spec(items.drop_last())
    }
}

/// The pages: the common page when there are common translators, one page
/// per episode of the tour, then the summary.
pub open spec fn pages_spec(has_common: bool, tour: Seq<usize>) -> Seq<PageKind> {
    (if has_common { seq![PageKind::Common] } else { Seq::empty() })
        + tour.map_values(|t: usize| PageKind::Ep(t))
        + seq![PageKind::Summary]
}

/// The choices after the common translator of template `tid` was picked:
/// every episode that offers it gets it.
pub open spec fn apply_common(items: Seq<(Episode, Vec<FansubInfo>)>, tour: Seq<usize>, choice: Seq<Option<usize>>, tid: i64) -> Seq<Option<usize>> {
    Seq::new(choice.len(), |pos: int|
        match first_offer(items[tour[pos] as int].1@, tid) {
            Some(j) => Some(j as usize),
            None => choice[pos],
        })
}

/// The choices after "apply to all" with template `tid`: every episode still
/// undecided that offers it gets it; decided episodes keep their choice.
pub open spec fn spread(items: Seq<(Episode, Vec<FansubInfo>)>, tour: Seq<usize>, choice: Seq<Option<usize>>, tid: i64) -> Seq<Option<usize>> {
    Seq::new(choice.len(), |pos: int|
        if choice[pos] is None {
            match first_offer(items[tour[pos] as int].1@, tid) {
                Some(j) => Some(j as usize),
                None => None,
            }
        } else {
            choice[pos]
        })
}

/// The picked (episode index, translator index) pairs, in tour order.
pub open spec fn chosen(tour: Seq<usize>, choice: Seq<Option<usize>>) -> Seq<(usize, usize)>
    decreases choice.len(),
{
    if choice.len() == 0 {
        Seq::empty()
    } else {
        let rest = chosen(tour, choice.drop_last());
        match choice.last() {
            Some(j) => rest.push((tour[choice.len() - 1], j)),
            None => rest,
        }
    }
}

/// The tour visits exactly the episodes that have translators, each once
/// and in order.
pub proof fn lemma_tour_spec(items: Seq<(Episode, Vec<FansubInfo>)>)
    requires
        items.len() <= usize::MAX,
    ensures
        tour_spec(items).len() <= items.len(),
        forall|pos: int| 0 <= pos < tour_spec(items).len() ==>
            (#[trigger] tour_spec(items)[pos]) < items.len() && items[tour_spec(items)[pos] as int].1@.len() > 0,
        forall|a: int, b: int| 0 <= a < b < tour_spec(items).len() ==> tour_spec(items)[a] < tour_spec(items)[b],
        forall|i: int| 0 <= i < items.len() && items[i].1@.len() > 0 ==> #[trigger] tour_spec(items).contains(i as usize),
    decreases items.len(),
{
    if items.len() > 0 {
        let d = items.drop_last();
        lemma_tour_spec(d);
        let td = tour_spec(d);
        assert forall|pos: int| 0 <= pos < td.len() implies items[td[pos] as int] == d[td[pos] as int] by {}
        if items.last().1@.len() > 0 {
            let t = td.push((items.len() - 1) as usize);
            assert(t[t.len() - 1] == items.len() - 1);
            assert forall|i: int| 0 <= i < items.len() && items[i].1@.len() > 0 implies #[trigger] t.contains(i as usize) by {
                if i < items.len() - 1 {
                    assert(d[i] == items[i]);
                    assert(td.contains(i as usize));
                    let p = choose|p: int| 0 <= p < td.len() && td[p] == i as usize;
                    assert(t[p] == i as usize);
                } else {
                    assert(t[t.len() - 1] == i as usize);
                }
            }
        } else {
            assert forall|i: int| 0 <= i < items.len() && items[i].1@.len() > 0 implies #[trigger] td.contains(i as usize) by {
                assert(i < items.len() - 1);
                assert(d[i] == items[i]);
            }
        }
    }
}

/// The tour's state: the episodes with their translators, the episodes
/// toured, the common translators, the pages, the choice per toured episode
/// (an index into that episode's translators), and the page shown.
pub struct FansubTour {
    pub items: Vec<(Episode, Vec<FansubInfo>)>,
    pub tour: Vec<usize>,
    pub commons: Vec<FansubInfo>,
    pub pages: Vec<PageKind>,
    pub choice: Vec<Option<usize>>,
    pub page: usize,
}

impl FansubTour {
    /// The pages and choices fit the episodes.
    pub open spec fn wf(&self) -> bool {
        &&& self.items@.len() <= usize::MAX
        &&& fansub_views(self.commons@) == common_spec(self.items@)
        &&& self.tour@ == tour_spec(self.items@)
        &&& self.pages@ == pages_spec(self.commons@.len() > 0, self.tour@)
        &&& self.choice@.len() == self.tour@.len()
        &&& self.page < self.pages@.len()
        &&& forall|pos: int| 0 <= pos < self.choice@.len() ==>
                (#[trigger] self.choice@[pos] matches Some(j) ==> j < self.items@[self.tour@[pos] as int].1@.len())
    }

    /// Where the episode pages start.
    pub open spec fn offset(&self) -> int {
        if self.commons@.len() > 0 { 1 } else { 0 }
    }

    /// The page shown.
    pub open spec fn kind(&self) -> PageKind {
        self.pages@[self.page as int]
    }

    /// The template chosen on the episode page shown, if any.
    pub open spec fn current_spec(&self) -> Option<i64> {
        match self.kind() {
            PageKind::Ep(_) => {
                let pos = self.page - self.offset();
                match self.choice@[pos] {
                    Some(j) => Some(self.items@[self.tour@[pos] as int].1@[j as int].template_id),
                    None => None,
                }
            },
            _ => None,
        }
    }

    proof fn lemma_pages(&self)
        requires
            self.wf(),
        ensures
            self.pages@.len() == self.offset() + self.tour@.len() + 1,
            self.offset() == 1 ==> self.pages@[0] == PageKind::Common,
            forall|pos: int| 0 <= pos < self.tour@.len() ==>
                #[trigger] self.pages@[self.offset() + pos] == PageKind::Ep(self.tour@[pos]),
            self.pages@[self.pages@.len() - 1] == PageKind::Summary,
            forall|i: int| 0 <= i < self.pages@.len() && (#[trigger] self.pages@[i]) is Ep ==>
                self.offset() <= i < self.offset() + self.tour@.len(),
            forall|i: int| 0 <= i < self.pages@.len() && (#[trigger] self.pages@[i]) is Summary ==>
                i == self.pages@.len() - 1,
            forall|i: int| 0 <= i < self.pages@.len() && (#[trigger] self.pages@[i]) is Common ==>
                i == 0 && self.offset() == 1,
    {
        let pre: Seq<PageKind> = if self.commons@.len() > 0 { seq![PageKind::Common] } else { Seq::empty() };
        let mid = self.tour@.map_values(|t: usize| PageKind::Ep(t));
        assert(self.pages@ =~= pre + mid + seq![PageKind::Summary]);
        assert forall|i: int| 0 <= i < self.pages@.len() && (#[trigger] self.pages@[i]) is Ep implies
            self.offset() <= i < self.offset() + self.tour@.len() by {
            if i < self.offset() {
                assert(self.pages@[i] == pre[i]);
            }
        }
        assert forall|i: int| 0 <= i < self.pages@.len() && (#[trigger] self.pages@[i]) is Summary implies
            i == self.pages@.len() - 1 by {
            if i < self.offset() {
                assert(self.pages@[i] == pre[i]);
            } else if i < self.offset() + self.tour@.len() {
                assert(self.pages@[i] == mid[i - self.offset()]);
            }
        }
        assert forall|i: int| 0 <= i < self.pages@.len() && (#[trigger] self.pages@[i]) is Common implies
            i == 0 && self.offset() == 1 by {
            if i >= self.offset() && i < self.offset() + self.tour@.len() {
                assert(self.pages@[i] == mid[i - self.offset()]);
            }
            if i < self.offset() {
                assert(self.pages@[i] == pre[i]);
            }
        }
    }
}



impl FansubTour {
    /// Opens the tour: the episodes with translators are toured, the common
    /// page comes first when some translator is common to all episodes, an
    /// episode with a single translator comes with it already chosen, and
    /// the first page is shown.
    pub fn new(items: Vec<(Episode, Vec<FansubInfo>)>) -> (r: FansubTour)
        ensures
            r.wf(),
            r.items@ == items@,
            fansub_views(r.commons@) == common_spec(items@),
            r.page == 0,
            forall|pos: int| 0 <= pos < r.tour@.len() ==>
                #[trigger] r.choice@[pos] == if items@[r.tour@[pos] as int].1@.len() == 1 { Some(0usize) } else { None },
    {
        let mut tour: Vec<usize> = Vec::new();
        let mut i: usize = 0;
        while i < items.len()
            invariant
                i <= items.len(),
                tour@ == tour_spec(items@.take(i as int)),
            decreases items.len() - i,
        {
            assert(items@.take(i as int + 1).drop_last() =~= items@.take(i as int));
            if items[i].1.len() > 0 {
                tour.push(i);
            }
            i = i + 1;
        }
        assert(items@.take(items.len() as int) =~= items@);
        proof { lemma_tour_spec(items@); }
        let commons = common_fansubs(items.as_slice());
        let mut pages: Vec<PageKind> = Vec::new();
        if commons.len() > 0 {
            pages.push(PageKind::Common);
        }
        let ghost pre = pages@;
        let mut k: usize = 0;
        while k < tour.len()
            invariant
                k <= tour.len(),
                pages@ == pre + tour@.take(k as int).map_values(|t: usize| PageKind::Ep(t)),
            decreases tour.len() - k,
        {
            pages.push(PageKind::Ep(tour[k]));
            assert(tour@.take(k as int + 1).map_values(|t: usize| PageKind::Ep(t))
                =~= tour@.take(k as int).map_values(|t: usize| PageKind::Ep(t)).push(PageKind::Ep(tour@[k as int])));
            k = k + 1;
        }
        assert(tour@.take(tour.len() as int) =~= tour@);
        pages.push(PageKind::Summary);
        assert(pages@ =~= pages_spec(commons@.len() > 0, tour@));
        let mut choice: Vec<Option<usize>> = Vec::new();
        let mut p: usize = 0;
        while p < tour.len()
            invariant
                p <= tour.len(),
                tour@ == tour_spec(items@),
                forall|q: int| 0 <= q < tour@.len() ==> (#[trigger] tour@[q]) < items@.len(),
                choice@.len() == p,
                forall|q: int| 0 <= q < p ==>
                    #[trigger] choice@[q] == if items@[tour@[q] as int].1@.len() == 1 { Some(0usize) } else { None },
            decreases tour.len() - p,
        {
            let t = tour[p];
            if items[t].1.len() == 1 {
                choice.push(Some(0));
            } else {
                choice.push(None);
            }
            p = p + 1;
        }
        FansubTour { items, tour, commons, pages, choice, page: 0 }
    }

    /// How many episodes have no translator and are left out of the tour.
    pub fn skipped_empty(&self) -> (r: usize)
        requires
            self.wf(),
        ensures
            r == self.items@.len() - self.tour@.len(),
    {
        proof { lemma_tour_spec(self.items@); }
        self.items.len() - self.tour.len()
    }

    /// Picks translator `j` for the toured episode at `pos`.
    pub fn pick(&mut self, pos: usize, j: usize)
        requires
            old(self).wf(),
            pos < old(self).tour@.len(),
            j < old(self).items@[old(self).tour@[pos as int] as int].1@.len(),
        ensures
            final(self).wf(),
            final(self).choice@ == old(self).choice@.update(pos as int, Some(j)),
            final(self).items@ == old(self).items@,
            final(self).tour@ == old(self).tour@,
            final(self).commons@ == old(self).commons@,
            final(self).pages@ == old(self).pages@,
            final(self).page == old(self).page,
    {
        self.choice.set(pos, Some(j));
    }

    /// Picks the common translator of template `template_id`: every episode
    /// that offers it gets it, and the summary is shown.
    pub fn pick_common(&mut self, template_id: i64)
        requires
            old(self).wf(),
        ensures
            final(self).wf(),
            final(self).choice@ == apply_common(old(self).items@, old(self).tour@, old(self).choice@, template_id),
            final(self).page == old(self).pages@.len() - 1,
            final(self).items@ == old(self).items@,
            final(self).tour@ == old(self).tour@,
            final(self).commons@ == old(self).commons@,
            final(self).pages@ == old(self).pages@,
    {
        proof { lemma_tour_spec(self.items@); }
        let ghost c0 = self.choice@;
        let ghost target = apply_common(self.items@, self.tour@, c0, template_id);
        let mut pos: usize = 0;
        while pos < self.tour.len()
            invariant
                pos <= self.tour@.len(),
                self.wf(),
                target == apply_common(self.items@, self.tour@, c0, template_id),
                target.len() == c0.len(),
                c0.len() == self.tour@.len(),
                self.items@ == old(self).items@,
                self.tour@ == old(self).tour@,
                self.commons@ == old(self).commons@,
                self.pages@ == old(self).pages@,
                self.page == old(self).page,
                c0 == old(self).choice@,
                forall|q: int| 0 <= q < self.tour@.len() ==> (#[trigger] self.tour@[q]) < self.items@.len(),
                forall|q: int| 0 <= q < pos ==> #[trigger] self.choice@[q] == target[q],
                forall|q: int| pos <= q < self.choice@.len() ==> #[trigger] self.choice@[q] == c0[q],
            decreases self.tour@.len() - pos,
        {
            let t = self.tour[pos];
            let found = first_offer_exec(self.items[t].1.as_slice(), template_id);
            proof {
                lemma_first_offer(self.items@[t as int].1@, template_id);
                assert(target[pos as int] == match first_offer(self.items@[t as int].1@, template_id) {
                    Some(j) => Some(j as usize),
                    None => c0[pos as int],
                });
            }
            if let Some(j) = found {
                self.choice.set(pos, Some(j));
            }
            pos = pos + 1;
        }
        assert(self.choice@ =~= apply_common(self.items@, self.tour@, c0, template_id));
        self.page = self.pages.len() - 1;
    }

    /// One page back, if there is one.
    pub fn back(&mut self)
        requires
            old(self).wf(),
        ensures
            final(self).wf(),
            final(self).page == if old(self).page > 0 { old(self).page - 1 } else { 0 },
            final(self).choice@ == old(self).choice@,
            final(self).items@ == old(self).items@,
            final(self).tour@ == old(self).tour@,
            final(self).commons@ == old(self).commons@,
            final(self).pages@ == old(self).pages@,
    {
        if self.page > 0 {
            self.page = self.page - 1;
        }
    }

    /// Skips to the next page without choosing, if there is one.
    pub fn skip(&mut self)
        requires
            old(self).wf(),
        ensures
            final(self).wf(),
            final(self).page == if old(self).page + 1 < old(self).pages@.len() { old(self).page + 1 } else { old(self).page as int },
            final(self).choice@ == old(self).choice@,
            final(self).items@ == old(self).items@,
            final(self).tour@ == old(self).tour@,
            final(self).commons@ == old(self).commons@,
            final(self).pages@ == old(self).pages@,
    {
        let n = self.pages.len();
        if self.page + 1 < n {
            self.page = self.page + 1;
        }
    }

    /// The template chosen on the episode page shown.
    pub fn current_choice(&self) -> (r: Option<i64>)
        requires
            self.wf(),
        ensures
            r == self.current_spec(),
    {
        proof { self.lemma_pages(); lemma_tour_spec(self.items@); }
        match self.pages[self.page] {
            PageKind::Ep(_) => {
                let off: usize = if self.commons.len() > 0 { 1 } else { 0 };
                let pos = self.page - off;
                match self.choice[pos] {
                    Some(j) => {
                        let t = self.tour[pos];
                        Some(self.items[t].1[j].template_id)
                    },
                    None => None,
                }
            },
            _ => None,
        }
    }

    /// "Next": with "apply to all" the choice of the episode shown goes to
    /// every undecided episode that offers its template; then the tour moves
    /// one page on. Says whether the summary was shown, that is whether the
    /// tour is finished.
    pub fn next(&mut self, apply_all: bool) -> (finish: bool)
        requires
            old(self).wf(),
        ensures
            final(self).wf(),
            finish == (old(self).kind() == PageKind::Summary),
            final(self).choice@ == match (apply_all, old(self).current_spec()) {
                (true, Some(tid)) => spread(old(self).items@, old(self).tour@, old(self).choice@, tid),
                _ => old(self).choice@,
            },
            final(self).page == if !finish && old(self).page + 1 < old(self).pages@.len() { old(self).page + 1 } else { old(self).page as int },
            final(self).items@ == old(self).items@,
            final(self).tour@ == old(self).tour@,
            final(self).commons@ == old(self).commons@,
            final(self).pages@ == old(self).pages@,
    {
        proof { lemma_tour_spec(self.items@); }
        if apply_all {
            if let Some(tid) = self.current_choice() {
                let ghost c0 = self.choice@;
                let ghost target = spread(self.items@, self.tour@, c0, tid);
                let mut pos: usize = 0;
                while pos < self.tour.len()
                    invariant
                        pos <= self.tour@.len(),
                        self.wf(),
                        target == spread(self.items@, self.tour@, c0, tid),
                        target.len() == c0.len(),
                        c0.len() == self.tour@.len(),
                c0.len() == self.tour@.len(),
                        self.items@ == old(self).items@,
                        self.tour@ == old(self).tour@,
                        self.commons@ == old(self).commons@,
                        self.pages@ == old(self).pages@,
                        self.page == old(self).page,
                        c0 == old(self).choice@,
                        forall|q: int| 0 <= q < self.tour@.len() ==> (#[trigger] self.tour@[q]) < self.items@.len(),
                        forall|q: int| 0 <= q < pos ==> #[trigger] self.choice@[q] == target[q],
                        forall|q: int| pos <= q < self.choice@.len() ==> #[trigger] self.choice@[q] == c0[q],
                    decreases self.tour@.len() - pos,
                {
                    let t = self.tour[pos];
                    proof {
                        lemma_first_offer(self.items@[t as int].1@, tid);
                        assert(target[pos as int] == if c0[pos as int] is None {
                            match first_offer(self.items@[t as int].1@, tid) {
                                Some(j) => Some(j as usize),
                                None => None,
                            }
                        } else {
                            c0[pos as int]
                        });
                    }
                    if self.choice[pos].is_none() {
                        let found = first_offer_exec(self.items[t].1.as_slice(), tid);
                        if let Some(j) = found {
                            self.choice.set(pos, Some(j));
                        }
                    }
                    pos = pos + 1;
                }
                assert(self.choice@ =~= spread(self.items@, self.tour@, c0, tid));
            }
        }
        let is_summary = self.pages[self.page] == PageKind::Summary;
        let n = self.pages.len();
        if !is_summary && self.page + 1 < n {
            self.page = self.page + 1;
        }
        is_summary
    }

    /// What the finished tour hands back: (episode index, translator index)
    /// for every toured episode with a choice, in tour order.
    pub fn result(&self) -> (r: Vec<(usize, usize)>)
        requires
            self.wf(),
        ensures
            r@ == chosen(self.tour@, self.choice@),
    {
        let mut out: Vec<(usize, usize)> = Vec::new();
        let mut pos: usize = 0;
        while pos < self.choice.len()
            invariant
                pos <= self.choice@.len(),
                self.choice@.len() == self.tour@.len(),
                out@ == chosen(self.tour@, self.choice@.take(pos as int)),
            decreases self.choice@.len() - pos,
        {
            assert(self.choice@.take(pos as int + 1).drop_last() =~= self.choice@.take(pos as int));
            if let Some(j) = self.choice[pos] {
                out.push((self.tour[pos], j));
            }
            pos = pos + 1;
        }
        assert(self.choice@.take(self.choice@.len() as int) =~= self.choice@);
        out
    }

    /// Whether "next" is enabled: always on the common page; on an episode
    /// page once it has a choice; on the summary once any episode has one.
    pub fn can_next(&self) -> (r: bool)
        requires
            self.wf(),
        ensures
            r == match self.kind() {
                PageKind::Common => true,
                PageKind::Summary => exists|q: int| 0 <= q < self.choice@.len() && self.choice@[q] is Some,
                PageKind::Ep(_) => self.choice@[self.page - self.offset()] is Some,
            },
    {
        proof { self.lemma_pages(); }
        match self.pages[self.page] {
            PageKind::Common => true,
            PageKind::Summary => {
                let mut q: usize = 0;
                while q < self.choice.len()
                    invariant
                        q <= self.choice@.len(),
                        self.kind() == PageKind::Summary,
                        forall|k: int| 0 <= k < q ==> self.choice@[k] is None,
                    decreases self.choice@.len() - q,
                {
                    if self.choice[q].is_some() {
                        assert(self.choice@[q as int] is Some);
                        return true;
                    }
                    q = q + 1;
                }
                false
            },
            PageKind::Ep(_) => {
                let off: usize = if self.commons.len() > 0 { 1 } else { 0 };
                self.choice[self.page - off].is_some()
            },
        }
    }

    /// Whether the page shown is an episode page (where "skip" and "apply to
    /// all" are offered).
    pub fn on_episode_page(&self) -> (r: bool)
        requires
            self.wf(),
        ensures
            r == self.kind() is Ep,
    {
        match self.pages[self.page] {
            PageKind::Ep(_) => true,
            _ => false,
        }
    }

    /// Whether "back" is enabled.
    pub fn can_go_back(&self) -> (r: bool)
        ensures
            r == (self.page > 0),
    {
        self.page > 0
    }

    /// The label of the "next" button.
    pub fn next_label(&self) -> (r: &'static str)
        requires
            self.wf(),
        ensures
            r@ == match self.kind() {
                PageKind::Summary => "Bitir ✓"@,
                PageKind::Common => "Tek tek seç →"@,
                PageKind::Ep(_) => if self.page + 1 < self.pages@.len() && self.pages@[self.page + 1] == PageKind::Summary {
                    "Özete Git →"@
                } else {
                    "İleri →"@
                },
            },
    {
        match self.pages[self.page] {
            PageKind::Summary => "Bitir ✓",
            PageKind::Common => "Tek tek seç →",
            PageKind::Ep(_) => {
                let n = self.pages.len();
                if self.page + 1 < n && self.pages[self.page + 1] == PageKind::Summary {
                    "Özete Git →"
                } else {
                    "İleri →"
                }
            },
        }
    }

    /// The counter above the card: "Ortak Çevirmenler", "Bölüm {n}/{total}"
    /// or "Özet".
    pub fn caption(&self) -> (r: String)
        requires
            self.wf(),
        ensures
            r@ == match self.kind() {
                PageKind::Common => "Ortak Çevirmenler"@,
                PageKind::Summary => "Özet"@,
                PageKind::Ep(_) => "Bölüm "@ + decimal((self.page - self.offset() + 1) as nat) + "/"@ + decimal(self.tour@.len()),
            },
    {
        proof { self.lemma_pages(); lemma_tour_spec(self.items@); }
        match self.pages[self.page] {
            PageKind::Common => string_from(&chars_of("Ortak Çevirmenler")),
            PageKind::Summary => string_from(&chars_of("Özet")),
            PageKind::Ep(_) => {
                let off: usize = if self.commons.len() > 0 { 1 } else { 0 };
                let total = self.pages.len();
                let n = self.page - off + 1;
                let mut v = chars_of("Bölüm ");
                let a = u64_decimal(n as u64);
                extend_chars(&mut v, &a);
                extend_str(&mut v, "/");
                let b = u64_decimal(self.tour.len() as u64);
                extend_chars(&mut v, &b);
                string_from(&v)
            },
        }
    }

    /// The name of the page shown: "pg_common", "pg_ep{t}" or "pg_summary".
    pub fn page_name(&self) -> (r: String)
        requires
            self.wf(),
        ensures
            r@ == match self.kind() {
                PageKind::Common => "pg_common"@,
                PageKind::Summary => "pg_summary"@,
                PageKind::Ep(t) => "pg_ep"@ + decimal(t as nat),
            },
    {
        match self.pages[self.page] {
            PageKind::Common => string_from(&chars_of("pg_common")),
            PageKind::Summary => string_from(&chars_of("pg_summary")),
            PageKind::Ep(t) => {
                let mut v = chars_of("pg_ep");
                let d = u64_decimal(t as u64);
                extend_chars(&mut v, &d);
                string_from(&v)
            },
        }
    }
}

/// A summary line: "S{:02}E{:02} → {name} ({rating}★)" for a chosen
/// translator (its rating already written), "S{:02}E{:02} → atlanacak"
/// otherwise.
pub fn summary_line(season: u64, episode: u64, chosen: Option<(&str, &str)>) -> (r: String)
    ensures
        r@ == "S"@ + decimal2(season as nat) + "E"@ + decimal2(episode as nat) + " → "@ + match chosen {
            Some((name, rating)) => name@ + " ("@ + rating@ + "★)"@,
            None => "atlanacak"@,
        },
{
    let mut v = chars_of("S");
    let s = u64_decimal2(season);
    extend_chars(&mut v, &s);
    extend_str(&mut v, "E");
    let e = u64_decimal2(episode);
    extend_chars(&mut v, &e);
    extend_str(&mut v, " → ");
    match chosen {
        Some((name, rating)) => {
            extend_str(&mut v, name);
            extend_str(&mut v, " (");
            extend_str(&mut v, rating);
            extend_str(&mut v, "★)");
        },
        None => extend_str(&mut v, "atlanacak"),
    }
    string_from(&v)
}

/// The summary's note on episodes without translators.
pub fn skipped_note(n: usize) -> (r: String)
    ensures
        r@ == decimal(n as nat) + " bölümde çeviri yok (atlanacak)"@,
{
    let mut v = u64_decimal(n as u64);
    extend_str(&mut v, " bölümde çeviri yok (atlanacak)");
    string_from(&v)
}

/// The heading of an episode page: "S{:02}E{:02} — {name}".
pub fn episode_heading(season: u64, episode: u64, name: &str) -> (r: String)
    ensures
        r@ == "S"@ + decimal2(season as nat) + "E"@ + decimal2(episode as nat) + " — "@ + name@,
{
    let mut v = chars_of("S");
    let s = u64_decimal2(season);
    extend_chars(&mut v, &s);
    extend_str(&mut v, "E");
    let e = u64_decimal2(episode);
    extend_chars(&mut v, &e);
    extend_str(&mut v, " — ");
    extend_str(&mut v, name);
    string_from(&v)
}

/// The heading of the common page, with the title's name.
pub fn common_heading(title_name: &str) -> (r: String)
    ensures
        r@ == "Bu çevirmenler seçili tüm bölümlerde var — birini seç, hepsi bitsin.\n"@ + title_name@,
{
    let mut v = chars_of("Bu çevirmenler seçili tüm bölümlerde var — birini seç, hepsi bitsin.\n");
    extend_str(&mut v, title_name);
    string_from(&v)
}


/// Picking a common translator settles every episode of the tour: each
/// gets that translator.
pub proof fn lemma_common_pick_fills_every_episode(t: FansubTour, k: int)
    requires
        t.wf(),
        0 <= k < t.commons@.len(),
    ensures
        forall|pos: int| 0 <= pos < t.tour@.len() ==>
            ((#[trigger] apply_common(t.items@, t.tour@, t.choice@, t.commons@[k].template_id)[pos]) matches Some(j)
                && j < t.items@[t.tour@[pos] as int].1@.len()
                && t.items@[t.tour@[pos] as int].1@[j as int].template_id == t.commons@[k].template_id),
{
    let items = t.items@;
    let tid = t.commons@[k].template_id;
    let c = fansub_views(t.commons@)[k];
    assert(c.template_id == tid);
    assert(common_spec(items).len() > 0);
    assert(items.len() > 0);
    lemma_common_fansubs(items);
    assert(common_spec(items).contains(c));
    let first = fansub_views(items[0].1@);
    assert(first.contains(c));
    let j0 = choose|j: int| 0 <= j < first.len() && first[j] == c;
    assert(items[0].1@[j0].template_id == tid);
    lemma_tour_spec(items);
    assert forall|pos: int| 0 <= pos < t.tour@.len() implies
        ((#[trigger] apply_common(items, t.tour@, t.choice@, tid)[pos]) matches Some(j)
            && j < items[t.tour@[pos] as int].1@.len()
            && items[t.tour@[pos] as int].1@[j as int].template_id == tid) by {
        let e = t.tour@[pos] as int;
        assert(0 <= e < items.len());
        if e == 0 {
            assert(offers(items[0].1@, tid));
        } else {
            assert(offered_by_rest(items, tid));
            assert(offers(items[e].1@, tid));
        }
        lemma_first_offer(items[e].1@, tid);
        assert(items[e].1@.len() == items[e].1.len());
        let j = first_offer(items[e].1@, tid)->0;
        assert(j as usize as int == j);
        assert(apply_common(items, t.tour@, t.choice@, tid)[pos] == Some(j as usize));
    }
}

} // verus!
