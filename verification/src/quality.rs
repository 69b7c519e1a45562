//! Playback quality choice: ranking quality labels and building the list of
//! qualities a mirror offers.

use vstd::prelude::*;
use crate::order::{lex_le, lex_le_vec, lemma_lex_le_reflexive, lemma_lex_le_total, lemma_lex_le_transitive};
use crate::text::{chars_eq, chars_of, owned};

verus! {

broadcast use vstd::seq_lib::group_to_multiset_ensures;

/// A selectable quality: its label, the direct address and the mirror it
/// was resolved from.
#[derive(Clone, Debug)]
pub struct PlayQuality {
    pub label: String,
    pub url: String,
    pub mirror_url: String,
}

/// Rank of a label: `1080p` first, then `720p`, `480p`, then all others.
pub open spec fn rank(l: Seq<char>) -> nat {
    if l == "1080p"@ {
        0
    } else if l == "720p"@ {
        1
    } else if l == "480p"@ {
        2
    } else {
        3
    }
}

/// Label order: by rank, then alphabetically.
pub open spec fn label_le(a: Seq<char>, b: Seq<char>) -> bool {
    rank(a) < rank(b) || (rank(a) == rank(b) && lex_le(a, b))
}

/// Labels in non-decreasing label order.
pub open spec fn labels_sorted(s: Seq<Seq<char>>) -> bool {
    forall|i: int, j: int| 0 <= i < j < s.len() ==> label_le(#[trigger] s[i], #[trigger] s[j])
}

proof fn lemma_label_le_total(a: Seq<char>, b: Seq<char>)
    ensures
        label_le(a, b) || label_le(b, a),
{
    lemma_lex_le_total(a, b);
}

proof fn lemma_label_le_transitive(a: Seq<char>, b: Seq<char>, c: Seq<char>)
    requires
        label_le(a, b),
        label_le(b, c),
    ensures
        label_le(a, c),
{
    if rank(a) == rank(b) && rank(b) == rank(c) {
        lemma_lex_le_transitive(a, b, c);
    }
}

proof fn lemma_insert_keeps_sorted(s: Seq<Seq<char>>, j: int, x: Seq<char>)
    requires
        labels_sorted(s),
        0 <= j <= s.len(),
        forall|k: int| 0 <= k < j ==> label_le(#[trigger] s[k], x),
        j < s.len() ==> !label_le(s[j], x),
    ensures
        labels_sorted(s.insert(j, x)),
{
    let n = s.insert(j, x);
    if j < s.len() {
        lemma_label_le_total(s[j], x);
    }
    assert forall|a: int, b: int| 0 <= a < b < n.len() implies label_le(#[trigger] n[a], #[trigger] n[b]) by {
        if b < j {
            assert(n[a] == s[a] && n[b] == s[b]);
        } else if b == j {
            assert(n[a] == s[a] && n[b] == x);
        } else if a == j {
            assert(n[b] == s[b - 1]);
            if b - 1 > j {
                lemma_label_le_transitive(x, s[j], s[b - 1]);
            }
        } else if a < j {
            assert(n[a] == s[a] && n[b] == s[b - 1]);
        } else {
            assert(n[a] == s[a - 1] && n[b] == s[b - 1]);
        }
    }
}

fn rank_of(l: &Vec<char>) -> (r: u8)
    ensures
        r as nat == rank(l@),
{
    let a = chars_of("1080p");
    let b = chars_of("720p");
    let c = chars_of("480p");
    if chars_eq(l, &a) {
        0
    } else if chars_eq(l, &b) {
        1
    } else if chars_eq(l, &c) {
        2
    } else {
        3
    }
}

fn label_le_vec(a: &Vec<char>, b: &Vec<char>) -> (r: bool)
    ensures
        r == label_le(a@, b@),
{
    let ra = rank_of(a);
    let rb = rank_of(b);
    ra < rb || (ra == rb && lex_le_vec(a, b))
}

/// The labels of a sequence of strings.
pub open spec fn views(s: Seq<String>) -> Seq<Seq<char>> {
    s.map_values(|x: String| x@)
}

/// Orders quality labels: 1080p, 720p, 480p, then the rest alphabetically.
/// The result holds the same labels, in label order.
pub fn order_labels(labels: Vec<String>) -> (r: Vec<String>)
    ensures
        r@.to_multiset() == labels@.to_multiset(),
        labels_sorted(views(r@)),
{
    let mut out: Vec<String> = Vec::new();
    let mut i: usize = 0;
    while i < labels.len()
        invariant
            i <= labels.len(),
            out@.to_multiset() == labels@.take(i as int).to_multiset(),
            labels_sorted(views(out@)),
        decreases labels.len() - i,
    {
        let x = labels[i].clone();
        let xv = chars_of(x.as_str());
        let mut j: usize = 0;
        let mut go = true;
        while go && j < out.len()
            invariant
                j <= out.len(),
                xv@ == x@,
                forall|k: int| 0 <= k < j ==> label_le(#[trigger] views(out@)[k], x@),
                !go ==> j < out.len() && !label_le(views(out@)[j as int], x@),
            decreases out.len() - j + (if go { 1int } else { 0int }),
        {
            let ov = chars_of(out[j].as_str());
            if !label_le_vec(&ov, &xv) {
                go = false;
            } else {
                j = j + 1;
            }
        }
        proof {
            lemma_insert_keeps_sorted(views(out@), j as int, x@);
            assert(views(out@.insert(j as int, x)) =~= views(out@).insert(j as int, x@));
            vstd::seq_lib::to_multiset_insert(out@, j as int, x);
            assert(labels@.take(i as int + 1) =~= labels@.take(i as int).push(labels@[i as int]));
        }
        out.insert(j, x);
        i = i + 1;
    }
    assert(labels@.take(labels.len() as int) =~= labels@);
    out
}

/// A quality seen as its three texts.
pub open spec fn quality_view(q: PlayQuality) -> (Seq<char>, Seq<char>, Seq<char>) {
    (q.label@, q.url@, q.mirror_url@)
}

/// The hits that survive de-duplication, in first-seen order: those with a
/// non-empty label that no earlier surviving hit carries.
pub open spec fn first_hits(h: Seq<(Seq<char>, Seq<char>, Seq<char>)>) -> Seq<(Seq<char>, Seq<char>, Seq<char>)>
    decreases h.len(),
{
    if h.len() == 0 {
        Seq::empty()
    } else {
        let p = first_hits(h.drop_last());
        let x = h.last();
        if x.0.len() == 0 || (exists|k: int| 0 <= k < p.len() && #[trigger] p[k].0 == x.0) {
            p
        } else {
            p.push(x)
        }
    }
}

/// The hits as text triples.
pub open spec fn hit_views(h: Seq<(String, String, String)>) -> Seq<(Seq<char>, Seq<char>, Seq<char>)> {
    h.map_values(|x: (String, String, String)| (x.0@, x.1@, x.2@))
}

/// The qualities as text triples.
pub open spec fn quality_views(q: Seq<PlayQuality>) -> Seq<(Seq<char>, Seq<char>, Seq<char>)> {
    q.map_values(|x: PlayQuality| quality_view(x))
}

/// The labels of qualities.
pub open spec fn quality_labels(q: Seq<PlayQuality>) -> Seq<Seq<char>> {
    q.map_values(|x: PlayQuality| x.label@)
}

/// De-duplicates the resolved `(label, address, mirror)` hits (first hit of
/// each non-empty label wins) and orders them by label.
pub fn collect_play_qualities(hits: Vec<(String, String, String)>) -> (r: Vec<PlayQuality>)
    ensures
        quality_views(r@).to_multiset() == first_hits(hit_views(hits@)).to_multiset(),
        labels_sorted(quality_labels(r@)),
{
    let ghost hv = hit_views(hits@);
    let mut out: Vec<PlayQuality> = Vec::new();
    let mut i: usize = 0;
    while i < hits.len()
        invariant
            i <= hits.len(),
            hv == hit_views(hits@),
            quality_views(out@) == first_hits(hv.take(i as int)),
        decreases hits.len() - i,
    {
        assert(hv.take(i as int + 1).drop_last() =~= hv.take(i as int));
        let lv = chars_of(hits[i].0.as_str());
        let ghost p = first_hits(hv.take(i as int));
        let mut dup = false;
        let mut k: usize = 0;
        while k < out.len()
            invariant
                k <= out.len(),
                lv@ == hits@[i as int].0@,
                p == quality_views(out@),
                !dup ==> forall|m: int| 0 <= m < k ==> (#[trigger] p[m]).0 != lv@,
                dup ==> exists|m: int| 0 <= m < p.len() && (#[trigger] p[m]).0 == lv@,
            decreases out.len() - k,
        {
            let ov = chars_of(out[k].label.as_str());
            if chars_eq(&ov, &lv) {
                dup = true;
                assert(p[k as int].0 == lv@);
            }
            k = k + 1;
        }
        if lv.len() != 0 && !dup {
            let q = PlayQuality {
                label: hits[i].0.clone(),
                url: hits[i].1.clone(),
                mirror_url: hits[i].2.clone(),
            };
            proof {
                if exists|m: int| 0 <= m < p.len() && (#[trigger] p[m]).0 == lv@ {
                    let m = choose|m: int| 0 <= m < p.len() && (#[trigger] p[m]).0 == lv@;
                    assert(p[m].0 != lv@);
                }
            }
            out.push(q);
            assert(quality_views(out@) =~= p.push(hv.take(i as int + 1).last()));
        } else {
            assert(quality_views(out@) == first_hits(hv.take(i as int + 1)));
        }
        i = i + 1;
    }
    assert(hv.take(hits.len() as int) =~= hv);
    let ghost firsts = quality_views(out@);
    let mut sorted: Vec<PlayQuality> = Vec::new();
    let mut n: usize = 0;
    while n < out.len()
        invariant
            n <= out.len(),
            quality_views(out@) == firsts,
            quality_views(sorted@).to_multiset() == quality_views(out@.take(n as int)).to_multiset(),
            labels_sorted(quality_labels(sorted@)),
        decreases out.len() - n,
    {
        let x = copy_quality(&out[n]);
        let xv = chars_of(out[n].label.as_str());
        let mut j: usize = 0;
        let mut go = true;
        while go && j < sorted.len()
            invariant
                j <= sorted.len(),
                xv@ == x.label@,
                forall|k: int| 0 <= k < j ==> label_le(#[trigger] quality_labels(sorted@)[k], xv@),
                !go ==> j < sorted.len() && !label_le(quality_labels(sorted@)[j as int], xv@),
            decreases sorted.len() - j + (if go { 1int } else { 0int }),
        {
            let sv = chars_of(sorted[j].label.as_str());
            if !label_le_vec(&sv, &xv) {
                go = false;
            } else {
                j = j + 1;
            }
        }
        proof {
            lemma_insert_keeps_sorted(quality_labels(sorted@), j as int, x.label@);
            assert(quality_labels(sorted@.insert(j as int, x)) =~= quality_labels(sorted@).insert(j as int, x.label@));
            assert(quality_views(sorted@.insert(j as int, x)) =~= quality_views(sorted@).insert(j as int, quality_view(x)));
            vstd::seq_lib::to_multiset_insert(quality_views(sorted@), j as int, quality_view(x));
            assert(quality_views(out@.take(n as int + 1)) =~= quality_views(out@.take(n as int)).push(quality_view(x)));
        }
        sorted.insert(j, x);
        n = n + 1;
    }
    assert(out@.take(out.len() as int) =~= out@);
    sorted
}

fn copy_quality(q: &PlayQuality) -> (r: PlayQuality)
    ensures
        r == *q,
{
    PlayQuality { label: q.label.clone(), url: q.url.clone(), mirror_url: q.mirror_url.clone() }
}

/// Qualities a mirror offers are worth a choice only when there are several:
/// `Some` with the ordered list when more than one distinct label resolved.
pub fn qualities_for_mirror(hits: Vec<(String, String, String)>) -> (r: Option<Vec<PlayQuality>>)
    ensures
        r is Some <==> first_hits(hit_views(hits@)).len() > 1,
        r matches Some(q) ==> quality_views(q@).to_multiset() == first_hits(hit_views(hits@)).to_multiset()
            && labels_sorted(quality_labels(q@)),
{
    let ghost f = first_hits(hit_views(hits@));
    let q = collect_play_qualities(hits);
    proof {
        assert(quality_views(q@).len() == q@.len());
        assert(quality_views(q@).to_multiset().len() == f.to_multiset().len());
    }
    if q.len() > 1 {
        Some(q)
    } else {
        None
    }
}

/// The qualities asked of each mirror, in order.
pub open spec fn probe_labels_spec() -> Seq<Seq<char>> {
    seq!["1080p"@, "720p"@, "480p"@]
}

/// The qualities asked of each mirror, in order: 1080p, 720p, 480p.
pub fn probe_labels() -> (r: Vec<&'static str>)
    ensures
        r@.map_values(|x: &'static str| x@) == probe_labels_spec(),
{
    let v: Vec<&'static str> = vec!["1080p", "720p", "480p"];
    assert(v@.map_values(|x: &'static str| x@) =~= probe_labels_spec());
    v
}

/// The hits of one mirror from its answers to the probes: each answer that
/// resolved with a non-empty label, as (label, address, mirror), in order.
pub open spec fn mirror_hits_spec(mirror: Seq<char>, answers: Seq<Result<(Seq<char>, Seq<char>), Seq<char>>>) -> Seq<(Seq<char>, Seq<char>, Seq<char>)>
    decreases answers.len(),
{
    if answers.len() == 0 {
        Seq::empty()
    } else {
        let rest = mirror_hits_spec(mirror, answers.drop_last());
        match answers.last() {
            Ok((label, url)) => if label.len() > 0 { rest.push((label, url, mirror)) } else { rest },
            Err(_) => rest,
        }
    }
}

/// The answers as text.
pub open spec fn answer_views(a: Seq<Result<(String, String), String>>) -> Seq<Result<(Seq<char>, Seq<char>), Seq<char>>> {
    a.map_values(|x: Result<(String, String), String>| match x {
        Ok((l, u)) => Ok((l@, u@)),
        Err(e) => Err(e@),
    })
}

/// Turns one mirror's answers to the probes into its hits.
pub fn mirror_hits(mirror: &str, answers: Vec<Result<(String, String), String>>) -> (r: Vec<(String, String, String)>)
    ensures
        hit_views(r@) == mirror_hits_spec(mirror@, answer_views(answers@)),
{
    let ghost av = answer_views(answers@);
    let mut out: Vec<(String, String, String)> = Vec::new();
    let mut rest = answers;
    let ghost mut i: int = 0;
    while rest.len() > 0
        invariant
            0 <= i <= av.len(),
            av == answer_views(answers@),
            answer_views(rest@) == av.skip(i),
            hit_views(out@) == mirror_hits_spec(mirror@, av.take(i)),
        decreases rest.len(),
    {
        let ghost r0 = rest@;
        assert(answer_views(r0).len() == r0.len());
        let a = rest.remove(0);
        proof {
            assert(answer_views(r0)[0] == av.skip(i)[0]);
            assert(av.skip(i)[0] == av[i]);
            assert(rest@ =~= r0.drop_first());
            assert forall|k: int| 0 <= k < rest@.len() implies #[trigger] answer_views(rest@)[k] == av.skip(i + 1)[k] by {
                assert(rest@[k] == r0[k + 1]);
                assert(answer_views(r0)[k + 1] == av.skip(i)[k + 1]);
            }
            assert(answer_views(rest@) =~= av.skip(i + 1));
            assert(av.take(i + 1).drop_last() =~= av.take(i));
        }
        match a {
            Ok((label, url)) => {
                if !label.as_str().is_empty() {
                    let m = owned(mirror);
                    out.push((label, url, m));
                    proof {
                        assert(hit_views(out@) =~= mirror_hits_spec(mirror@, av.take(i)).push((label@, url@, mirror@)));
                    }
                }
            },
            Err(_) => {},
        }
        proof {
            i = i + 1;
        }
    }
    assert(av.take(i) =~= av);
    out
}

/// The qualities a mirror offers from its hits, when it offers more than
/// one; nothing otherwise (the next mirror is then asked).
pub fn first_qualifying(hits: Vec<(String, String, String)>) -> (r: Option<Vec<PlayQuality>>)
    ensures
        first_hits(hit_views(hits@)).len() > 1 ==> (r matches Some(q)
            && quality_views(q@).to_multiset() == first_hits(hit_views(hits@)).to_multiset()
            && labels_sorted(quality_labels(q@))),
        first_hits(hit_views(hits@)).len() <= 1 ==> r is None,
{
    broadcast use vstd::seq_lib::group_to_multiset_ensures;
    let ghost h = first_hits(hit_views(hits@));
    let q = collect_play_qualities(hits);
    proof {
        assert(quality_views(q@).len() == q@.len());
        assert(quality_views(q@).to_multiset().len() == quality_views(q@).len());
        assert(h.to_multiset().len() == h.len());
    }
    if q.len() > 1 {
        Some(q)
    } else {
        None
    }
}

/// The position of the first mirror whose hits give more than one quality.
pub open spec fn first_multi(ms: Seq<Seq<(Seq<char>, Seq<char>, Seq<char>)>>) -> Option<int>
    decreases ms.len(),
{
    if ms.len() == 0 {
        None
    } else if first_hits(ms[0]).len() > 1 {
        Some(0)
    } else {
        match first_multi(ms.drop_first()) {
            Some(j) => Some(j + 1),
            None => None,
        }
    }
}

/// The hits of each mirror as text triples.
pub open spec fn mirror_hit_views(m: Seq<Vec<(String, String, String)>>) -> Seq<Seq<(Seq<char>, Seq<char>, Seq<char>)>> {
    m.map_values(|h: Vec<(String, String, String)>| hit_views(h@))
}

/// The qualities to offer, from the resolved hits of each mirror in turn:
/// those of the first mirror that gives more than one quality; refused
/// with "tek kalite" when none does. A caller that resolves mirror by
/// mirror asks `first_qualifying` after each one and stops at the first
/// `Some`, which is this same answer.
pub fn available_play_qualities(per_mirror: Vec<Vec<(String, String, String)>>) -> (r: Result<Vec<PlayQuality>, String>)
    ensures
        match first_multi(mirror_hit_views(per_mirror@)) {
            Some(j) => r matches Ok(q)
                && quality_views(q@).to_multiset() == first_hits(mirror_hit_views(per_mirror@)[j]).to_multiset()
                && labels_sorted(quality_labels(q@)),
            None => r matches Err(e) && e@ == "tek kalite"@,
        },
{
    let ghost mv = mirror_hit_views(per_mirror@);
    let ghost n = per_mirror@.len();
    let mut rest = per_mirror;
    let ghost mut i: int = 0;
    assert(mv.skip(0) =~= mv);
    while rest.len() > 0
        invariant
            0 <= i <= n,
            n == mv.len(),
            mv == mirror_hit_views(per_mirror@),
            mirror_hit_views(rest@) == mv.skip(i),
            first_multi(mv) == (match first_multi(mv.skip(i)) {
                Some(j) => Some(j + i),
                None => None::<int>,
            }),
        decreases rest.len(),
    {
        let hits = rest.remove(0);
        proof {
            assert(mv.skip(i)[0] == hit_views(hits@));
            assert(mv[i] == mv.skip(i)[0]);
            assert(mv.skip(i).drop_first() =~= mv.skip(i + 1));
            assert(mirror_hit_views(rest@) =~= mv.skip(i + 1));
        }
        match first_qualifying(hits) {
            Some(q) => {
                assert(first_multi(mv.skip(i)) == Some(0int));
                return Ok(q);
            },
            None => {},
        }
        proof {
            i = i + 1;
        }
    }
    assert(mv.skip(i).len() == 0);
    Err("tek kalite".to_string())
}

} // verus!
