//! Small decisions of the list views: drag-and-drop reordering of the
//! marathon, the drag icon's hotspot, and the favourites left after a removal.

use vstd::prelude::*;
use crate::catalog::TitleView;
use crate::library::{marathon_titles, reorder_spec, title_pos, MarathonView};
use crate::text::{chars_of, extend_chars, extend_str, string_from, u64_decimal, u64_decimal2, decimal, decimal2};

verus! {

/// Index of the first occurrence of `id` in `s`.
pub open spec fn id_pos(s: Seq<u64>, id: u64) -> Option<int>
    decreases s.len(),
{
    if s.len() == 0 {
        None
    } else if s[0] == id {
        Some(0)
    } else {
        match id_pos(s.drop_first(), id) {
            Some(i) => Some(i + 1),
            None => None,
        }
    }
}

proof fn lemma_id_pos(s: Seq<u64>, id: u64)
    ensures
        id_pos(s, id) is None <==> !s.contains(id),
        id_pos(s, id) matches Some(p) ==> 0 <= p < s.len() && s[p] == id && forall|k: int| 0 <= k < p ==> s[k] != id,
    decreases s.len(),
{
    if s.len() > 0 {
        lemma_id_pos(s.drop_first(), id);
        if s[0] != id {
            if s.contains(id) {
                let k = choose|k: int| 0 <= k < s.len() && s[k] == id;
                assert(s.drop_first()[k - 1] == id);
            }
            if let Some(i) = id_pos(s.drop_first(), id) {
                assert forall|k: int| 0 <= k < i + 1 implies s[k] != id by {
                    if k > 0 {
                        assert(s[k] == s.drop_first()[k - 1]);
                    }
                }
            }
        }
    }
}

/// The order after dropping `id` on position `new_index`: moved there
/// (clamped to the last place); unchanged when absent or already there.
pub open spec fn reorder_ids(s: Seq<u64>, id: u64, new_index: int) -> Seq<u64> {
    match id_pos(s, id) {
        None => s,
        Some(pos) => if pos == new_index {
            s
        } else {
            let rest = s.remove(pos);
            let idx = if new_index < rest.len() { new_index } else { rest.len() as int };
            rest.insert(idx, s[pos])
        },
    }
}

proof fn lemma_pos_agree(ts: Seq<TitleView>, id: u64)
    ensures
        title_pos(ts, id) == id_pos(ts.map_values(|t: TitleView| t.id), id),
    decreases ts.len(),
{
    if ts.len() > 0 {
        assert(ts.drop_first().map_values(|t: TitleView| t.id) =~= ts.map_values(|t: TitleView| t.id).drop_first());
        lemma_pos_agree(ts.drop_first(), id);
    }
}

/// The title ids of a marathon list, in order.
pub open spec fn marathon_ids(m: Seq<MarathonView>) -> Seq<u64> {
    m.map_values(|x: MarathonView| x.title.id)
}

/// Moving a title on the marathon list and moving its id in the drag-and-drop
/// order agree: the ids of the reordered list are the reordered ids.
pub proof fn lemma_reorder_agrees(m: Seq<MarathonView>, id: u64, new_index: int)
    requires
        new_index >= 0,
    ensures
        marathon_ids(reorder_spec(m, id, new_index)) == reorder_ids(marathon_ids(m), id, new_index),
{
    let ids = marathon_ids(m);
    assert(marathon_titles(m).map_values(|t: TitleView| t.id) =~= ids);
    lemma_pos_agree(marathon_titles(m), id);
    lemma_id_pos(ids, id);
    if let Some(pos) = id_pos(ids, id) {
        if pos != new_index {
            let rest = m.remove(pos);
            let idx = if new_index < rest.len() { new_index } else { rest.len() as int };
            assert(marathon_ids(rest.insert(idx, m[pos])) =~= ids.remove(pos).insert(idx, ids[pos]));
        }
    }
}

/// The marathon order after moving `id` to `new_index`.
pub fn compute_reorder(order: &[u64], id: u64, new_index: usize) -> (r: Vec<u64>)
    ensures
        r@ == reorder_ids(order@, id, new_index as int),
{
    let mut v: Vec<u64> = Vec::new();
    let mut i: usize = 0;
    while i < order.len()
        invariant
            i <= order.len(),
            v@ == order@.take(i as int),
        decreases order.len() - i,
    {
        v.push(order[i]);
        assert(v@ =~= order@.take(i as int + 1));
        i = i + 1;
    }
    assert(order@.take(order.len() as int) =~= order@);
    proof { lemma_id_pos(order@, id); }
    let mut p: usize = 0;
    while p < v.len() && v[p] != id
        invariant
            p <= v.len(),
            v@ == order@,
            forall|k: int| 0 <= k < p ==> v@[k] != id,
        decreases v.len() - p,
    {
        p = p + 1;
    }
    if p == v.len() {
        proof {
            if order@.contains(id) {
                let k = choose|k: int| 0 <= k < order@.len() && order@[k] == id;
            }
        }
        return v;
    }
    proof {
        if let Some(q) = id_pos(order@, id) {
            if q > p {
                assert(order@[p as int] == id);
            }
        }
    }
    if p == new_index {
        return v;
    }
    let item = v.remove(p);
    let idx = if new_index < v.len() { new_index } else { v.len() };
    v.insert(idx, item);
    v
}

/// Half of `x`, rounded toward zero (Rust's integer division by 2).
pub open spec fn half(x: int) -> int {
    if x >= 0 { x / 2 } else { -((-x) / 2) }
}

/// The drag icon's hotspot: the centre of a `w` by `h` card.
pub fn centered_hotspot(w: i32, h: i32) -> (r: (i32, i32))
    ensures
        r.0 == half(w as int),
        r.1 == half(h as int),
{
    (w / 2, h / 2)
}

/// The ids shown after removing `removed`: every other id, in order.
pub open spec fn without_id(all: Seq<u64>, removed: u64) -> Seq<u64>
    decreases all.len(),
{
    if all.len() == 0 {
        Seq::empty()
    } else if all.last() == removed {
        without_id(all.drop_last(), removed)
    } else {
        without_id(all.drop_last(), removed).push(all.last())
    }
}

/// The favourites still shown after one is removed.
pub fn displayed_after_remove(all: &[u64], removed: u64) -> (r: Vec<u64>)
    ensures
        r@ == without_id(all@, removed),
{
    let mut out: Vec<u64> = Vec::new();
    let mut i: usize = 0;
    while i < all.len()
        invariant
            i <= all.len(),
            out@ == without_id(all@.take(i as int), removed),
        decreases all.len() - i,
    {
        assert(all@.take(i as int + 1).drop_last() =~= all@.take(i as int));
        if all[i] != removed {
            out.push(all[i]);
        }
        i = i + 1;
    }
    assert(all@.take(all.len() as int) =~= all@);
    out
}


/// What a drop on card `self_id` at position `idx` asks for: the dragged
/// card's id (its text payload read as a `u64`) moved to `idx`; nothing for
/// a payload that is not an id or a card dropped on itself.
pub open spec fn drop_request_spec(payload: Option<Seq<char>>, self_id: u64, idx: usize) -> Option<(u64, usize)> {
    match payload {
        Some(p) => match crate::text::parse_u64_spec(p) {
            Some(src) => if src != self_id { Some((src, idx)) } else { None },
            None => None,
        },
        None => None,
    }
}

/// Reads a drop on a marathon card.
pub fn drop_request(payload: Option<&str>, self_id: u64, idx: usize) -> (r: Option<(u64, usize)>)
    ensures
        r == drop_request_spec(match payload { Some(p) => Some(p@), None => None }, self_id, idx),
{
    match payload {
        Some(p) => {
            let v = crate::text::chars_of(p);
            assert(v@.subrange(0, v@.len() as int) =~= v@);
            match crate::text::parse_u64_in(&v, 0, v.len()) {
                Some(src) => if src != self_id { Some((src, idx)) } else { None },
                None => None,
            }
        },
        None => None,
    }
}


/// How many entries of `s` are `true`.
pub open spec fn count_true(s: Seq<bool>) -> nat
    decreases s.len(),
{
    if s.len() == 0 {
        0
    } else {
        count_true(s.drop_last()) + if s.last() { 1nat } else { 0nat }
    }
}

proof fn lemma_count_true_bound(s: Seq<bool>)
    ensures
        count_true(s) <= s.len(),
    decreases s.len(),
{
    if s.len() > 0 {
        lemma_count_true_bound(s.drop_last());
    }
}

/// The marathon's summary: completed entries, all entries, and the whole
/// percentage completed (0 for an empty marathon).
pub fn marathon_stats(completed: &[bool]) -> (r: (usize, usize, usize))
    ensures
        r.0 == count_true(completed@),
        r.1 == completed@.len(),
        r.2 == if completed@.len() > 0 { count_true(completed@) * 100 / completed@.len() } else { 0 },
        r.2 <= 100,
{
    let mut c: usize = 0;
    let mut i: usize = 0;
    while i < completed.len()
        invariant
            i <= completed.len(),
            c == count_true(completed@.take(i as int)),
            c <= i,
        decreases completed.len() - i,
    {
        assert(completed@.take(i as int + 1).drop_last() =~= completed@.take(i as int));
        if completed[i] {
            c = c + 1;
        }
        i = i + 1;
    }
    assert(completed@.take(completed.len() as int) =~= completed@);
    let total = completed.len();
    if total == 0 {
        return (c, total, 0);
    }
    let wide: u128 = (c as u128) * 100;
    let p: u128 = wide / (total as u128);
    assert(p <= 100) by (nonlinear_arith)
        requires
            p == wide / (total as u128),
            wide == c * 100,
            c <= total,
            total > 0,
    {
        assert(wide <= total * 100);
        assert(p * total <= wide);
    }
    (c, total, p as usize)
}

/// The marathon summary line: "{c} / {t} Anime Tamamlandı".
pub fn marathon_summary(completed: usize, total: usize) -> (r: String)
    ensures
        r@ == decimal(completed as nat) + " / "@ + decimal(total as nat) + " Anime Tamamlandı"@,
{
    let mut v = u64_decimal(completed as u64);
    extend_str(&mut v, " / ");
    let t = u64_decimal(total as u64);
    extend_chars(&mut v, &t);
    extend_str(&mut v, " Anime Tamamlandı");
    string_from(&v)
}

/// The percentage pill: "%{p}".
pub fn percent_label(p: usize) -> (r: String)
    ensures
        r@ == "%"@ + decimal(p as nat),
{
    let mut v = chars_of("%");
    let d = u64_decimal(p as u64);
    extend_chars(&mut v, &d);
    string_from(&v)
}

/// The status badge of a marathon entry.
pub fn status_badge(completed: bool) -> (r: &'static str)
    ensures
        r@ == if completed { "🏁 Tamamlandı"@ } else { "⏳ Devam Ediyor"@ },
{
    if completed { "🏁 Tamamlandı" } else { "⏳ Devam Ediyor" }
}

/// The second line of a history row: "S{:02} E{:02} · {name}".
pub fn history_subtitle(season: u64, episode: u64, name: &str) -> (r: String)
    ensures
        r@ == "S"@ + decimal2(season as nat) + " E"@ + decimal2(episode as nat) + " · "@ + name@,
{
    let mut v = chars_of("S");
    let s = u64_decimal2(season);
    extend_chars(&mut v, &s);
    extend_str(&mut v, " E");
    let e = u64_decimal2(episode);
    extend_chars(&mut v, &e);
    extend_str(&mut v, " · ");
    extend_str(&mut v, name);
    string_from(&v)
}

/// The history rows picked for deletion, in the order they were picked.
pub struct Selection {
    pub ids: Vec<u64>,
}

impl Selection {
    /// No id occurs twice.
    pub open spec fn wf(&self) -> bool {
        self.ids@.no_duplicates()
    }

    /// Nothing picked.
    pub fn new() -> (r: Selection)
        ensures
            r.ids@ == Seq::<u64>::empty(),
            r.wf(),
    {
        Selection { ids: Vec::new() }
    }

    /// Follows a row's check box: a checked row is added once, an unchecked
    /// row leaves the selection.
    pub fn set_checked(&mut self, id: u64, checked: bool)
        requires
            old(self).wf(),
        ensures
            final(self).wf(),
            checked ==> final(self).ids@ == if old(self).ids@.contains(id) { old(self).ids@ } else { old(self).ids@.push(id) },
            !checked ==> final(self).ids@ == without_id(old(self).ids@, id),
            forall|x: u64| #![trigger final(self).ids@.contains(x)] final(self).ids@.contains(x) <==> (if x == id { checked } else { old(self).ids@.contains(x) }),
    {
        if checked {
            let mut k: usize = 0;
            let mut found = false;
            while k < self.ids.len()
                invariant
                    k <= self.ids.len(),
                    self.ids@ == old(self).ids@,
                    found <==> self.ids@.take(k as int).contains(id),
                decreases self.ids.len() - k,
            {
                if self.ids[k] == id {
                    found = true;
                }
                proof {
                    let a = self.ids@.take(k as int);
                    let b = self.ids@.take(k as int + 1);
                    assert(b =~= a.push(self.ids@[k as int]));
                    if b.contains(id) && !a.contains(id) {
                        let j = choose|j: int| 0 <= j < b.len() && b[j] == id;
                        if j < a.len() {
                            assert(a[j] == id);
                        }
                    }
                    if a.contains(id) {
                        let j = choose|j: int| 0 <= j < a.len() && a[j] == id;
                        assert(b[j] == id);
                    }
                    if self.ids@[k as int] == id {
                        assert(b[k as int] == id);
                    }
                }
                k = k + 1;
            }
            assert(self.ids@.take(self.ids.len() as int) =~= self.ids@);
            if !found {
                self.ids.push(id);
                proof {
                    assert(self.ids@[self.ids@.len() - 1] == id);
                    assert forall|x: u64| #![trigger self.ids@.contains(x)] self.ids@.contains(x) <==> (if x == id { true } else { old(self).ids@.contains(x) }) by {
                        if x != id && self.ids@.contains(x) {
                            let j = choose|j: int| 0 <= j < self.ids@.len() && self.ids@[j] == x;
                            assert(old(self).ids@[j] == x);
                        }
                        if old(self).ids@.contains(x) {
                            let j = choose|j: int| 0 <= j < old(self).ids@.len() && old(self).ids@[j] == x;
                            assert(self.ids@[j] == x);
                        }
                    }
                }
            }
        } else {
            let kept = displayed_after_remove(self.ids.as_slice(), id);
            proof {
                lemma_without_id(old(self).ids@, id);
            }
            self.ids = kept;
        }
    }

    /// How many rows are picked.
    pub fn count(&self) -> (r: usize)
        ensures
            r == self.ids@.len(),
    {
        self.ids.len()
    }
}

/// The label of the delete button: "Seçilenleri Sil ({n})".
pub fn delete_label(n: usize) -> (r: String)
    ensures
        r@ == "Seçilenleri Sil ("@ + decimal(n as nat) + ")"@,
{
    let mut v = chars_of("Seçilenleri Sil (");
    let d = u64_decimal(n as u64);
    extend_chars(&mut v, &d);
    extend_str(&mut v, ")");
    string_from(&v)
}

proof fn lemma_without_id(s: Seq<u64>, id: u64)
    requires
        s.no_duplicates(),
    ensures
        without_id(s, id).no_duplicates(),
        forall|x: u64| #![trigger without_id(s, id).contains(x)] without_id(s, id).contains(x) <==> (x != id && s.contains(x)),
    decreases s.len(),
{
    if s.len() > 0 {
        let t = s.drop_last();
        assert(t.no_duplicates()) by {
            assert forall|i: int, j: int| 0 <= i < t.len() && 0 <= j < t.len() && i != j implies t[i] != t[j] by {
                assert(t[i] == s[i] && t[j] == s[j]);
            }
        }
        lemma_without_id(t, id);
        let w = without_id(t, id);
        assert forall|x: u64| s.contains(x) <==> (t.contains(x) || x == s.last()) by {
            if s.contains(x) {
                let j = choose|j: int| 0 <= j < s.len() && s[j] == x;
                if j < s.len() - 1 {
                    assert(t[j] == x);
                }
            }
            if t.contains(x) {
                let j = choose|j: int| 0 <= j < t.len() && t[j] == x;
                assert(s[j] == x);
            }
            if x == s.last() {
                assert(s[s.len() - 1] == x);
            }
        }
        if s.last() != id {
            let r = w.push(s.last());
            assert(!t.contains(s.last())) by {
                if t.contains(s.last()) {
                    let j = choose|j: int| 0 <= j < t.len() && t[j] == s.last();
                    assert(s[j] == s[s.len() - 1]);
                }
            }
            assert forall|x: u64| r.contains(x) <==> (w.contains(x) || x == s.last()) by {
                if r.contains(x) {
                    let j = choose|j: int| 0 <= j < r.len() && r[j] == x;
                    if j < w.len() {
                        assert(w[j] == x);
                    }
                }
                if w.contains(x) {
                    let j = choose|j: int| 0 <= j < w.len() && w[j] == x;
                    assert(r[j] == x);
                }
                if x == s.last() {
                    assert(r[r.len() - 1] == x);
                }
            }
            assert(r.no_duplicates()) by {
                assert forall|i: int, j: int| 0 <= i < r.len() && 0 <= j < r.len() && i != j implies r[i] != r[j] by {
                    if i < w.len() && j < w.len() {
                        assert(r[i] == w[i] && r[j] == w[j]);
                    } else if i < w.len() {
                        assert(w.contains(r[i]));
                    } else if j < w.len() {
                        assert(w.contains(r[j]));
                    }
                }
            }
        }
    }
}

} // verus!
