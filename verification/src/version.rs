//! Release versions: comparing version tags, picking the release asset and
//! checking a downloaded image before it replaces the running one.

use vstd::prelude::*;
use crate::text::{
    chars_eq, chars_of, digits_value, find_char, find_char_in, lemma_find_char, owned,
    parse_u32_in, parse_u32_spec, split_on,
};

verus! {

/// `s` without any leading `v` characters (`trim_start_matches('v')`).
pub open spec fn strip_v(s: Seq<char>) -> Seq<char>
    decreases s.len(),
{
    if s.len() > 0 && s[0] == 'v' {
        strip_v(s.drop_first())
    } else {
        s
    }
}

/// A version component: the piece read as a `u32`, or 0 when it is not one.
pub open spec fn component(p: Seq<char>) -> nat {
    match parse_u32_spec(p) {
        Some(v) => v as nat,
        None => 0,
    }
}

/// The numeric components of a version tag such as `v3.1.0`.
pub open spec fn version_parts(s: Seq<char>) -> Seq<nat> {
    split_on(strip_v(s), '.').map_values(|p: Seq<char>| component(p))
}

/// Component `i` of a version, missing components counting as 0.
pub open spec fn part_at(v: Seq<nat>, i: int) -> nat {
    if 0 <= i < v.len() {
        v[i]
    } else {
        0
    }
}

/// Whether version `l` is newer than version `c`: at the first component
/// where they differ (missing ones read as 0), `l`'s is larger.
pub open spec fn newer(l: Seq<nat>, c: Seq<nat>) -> bool {
    exists|i: int|
        #![trigger part_at(l, i)]
        0 <= i && (forall|j: int| 0 <= j < i ==> part_at(l, j) == part_at(c, j)) && part_at(l, i)
            > part_at(c, i)
}

/// Whether tag `latest` names a newer version than tag `current`.
pub open spec fn needs_update_spec(current: Seq<char>, latest: Seq<char>) -> bool {
    newer(version_parts(latest), version_parts(current))
}

fn version_numbers(s: &str) -> (r: Vec<u32>)
    ensures
        r@.map_values(|x: u32| x as nat) == version_parts(s@),
{
    let v = chars_of(s);
    let mut a: usize = 0;
    assert(v@.subrange(0, v@.len() as int) =~= v@);
    while a < v.len() && v[a] == 'v'
        invariant
            a <= v.len(),
            strip_v(v@) == strip_v(v@.subrange(a as int, v@.len() as int)),
        decreases v.len() - a,
    {
        assert(v@.subrange(a as int, v@.len() as int).drop_first() =~= v@.subrange(a + 1, v@.len() as int));
        a = a + 1;
    }
    assert(v@.subrange(0, v@.len() as int) =~= v@);
    let ghost whole = strip_v(v@);
    assert(whole =~= v@.subrange(a as int, v@.len() as int));
    let mut out: Vec<u32> = Vec::new();
    let ghost mut done: Seq<Seq<char>> = Seq::empty();
    let mut start = a;
    loop
        invariant
            a <= start <= v.len(),
            v@ == s@,
            whole == strip_v(s@),
            whole == v@.subrange(a as int, v@.len() as int),
            split_on(whole, '.') == done + split_on(v@.subrange(start as int, v@.len() as int), '.'),
            out@.len() == done.len(),
            forall|j: int| 0 <= j < done.len() ==> out@[j] as nat == #[trigger] component(done[j]),
        decreases v.len() - start,
    {
        let ghost rest = v@.subrange(start as int, v@.len() as int);
        proof { lemma_find_char(rest, '.'); }
        match find_char_in(&v, start, v.len(), '.') {
            None => {
                let x = match parse_u32_in(&v, start, v.len()) {
                    Some(x) => x,
                    None => 0,
                };
                out.push(x);
                proof {
                    done = done.push(rest);
                    assert(split_on(rest, '.') == seq![rest]);
                    assert(split_on(whole, '.') =~= done);
                }
                let ghost parts = version_parts(s@);
                assert(parts == done.map_values(|p: Seq<char>| component(p)));
                assert forall|j: int| 0 <= j < out@.len() implies out@.map_values(|x: u32| x as nat)[j] == parts[j] by {
                    assert(out@[j] as nat == component(done[j]));
                }
                assert(out@.map_values(|x: u32| x as nat) =~= parts);
                return out;
            },
            Some(p) => {
                let x = match parse_u32_in(&v, start, p) {
                    Some(x) => x,
                    None => 0,
                };
                out.push(x);
                proof {
                    let q = p - start;
                    assert(rest.take(q) =~= v@.subrange(start as int, p as int));
                    assert(rest.skip(q + 1) =~= v@.subrange(p + 1, v@.len() as int));
                    assert(split_on(rest, '.') == seq![rest.take(q)] + split_on(rest.skip(q + 1), '.'));
                    done = done.push(rest.take(q));
                    assert(split_on(whole, '.') =~= done + split_on(v@.subrange(p + 1, v@.len() as int), '.'));
                }
                start = p + 1;
            },
        }
    }
}

/// Whether `latest` is a newer version than `current` (a leading `v` is
/// ignored; a component that is not a number counts as 0).
pub fn needs_update(current: &str, latest: &str) -> (r: bool)
    ensures
        r == needs_update_spec(current@, latest@),
{
    let c = version_numbers(current);
    let l = version_numbers(latest);
    let ghost cp = version_parts(current@);
    let ghost lp = version_parts(latest@);
    assert(c@.len() == cp.len() && l@.len() == lp.len());
    let n = if c.len() > l.len() { c.len() } else { l.len() };
    let mut i: usize = 0;
    while i < n
        invariant
            n == (if c.len() > l.len() { c.len() } else { l.len() }),
            cp == version_parts(current@),
            lp == version_parts(latest@),
            c@.map_values(|x: u32| x as nat) == cp,
            l@.map_values(|x: u32| x as nat) == lp,
            i <= n,
            forall|j: int| 0 <= j < i ==> part_at(lp, j) == part_at(cp, j),
        decreases n - i,
    {
        let cv: u32 = if i < c.len() { c[i] } else { 0 };
        let lv: u32 = if i < l.len() { l[i] } else { 0 };
        assert(cv as nat == part_at(cp, i as int));
        assert(lv as nat == part_at(lp, i as int));
        if lv > cv {
            assert(part_at(lp, i as int) > part_at(cp, i as int));
            assert(forall|j: int| 0 <= j < i as int ==> part_at(lp, j) == part_at(cp, j));
            assert(newer(lp, cp));
            return true;
        }
        if lv < cv {
            proof {
                if newer(lp, cp) {
                    let w = choose|w: int|
                        #![trigger part_at(lp, w)]
                        0 <= w && (forall|j: int| 0 <= j < w ==> part_at(lp, j) == part_at(cp, j))
                            && part_at(lp, w) > part_at(cp, w);
                    if w > i {
                        assert(part_at(lp, i as int) == part_at(cp, i as int));
                    }
                }
            }
            return false;
        }
        i = i + 1;
    }
    proof {
        if newer(lp, cp) {
            let w = choose|w: int|
                #![trigger part_at(lp, w)]
                0 <= w && (forall|j: int| 0 <= j < w ==> part_at(lp, j) == part_at(cp, j))
                    && part_at(lp, w) > part_at(cp, w);
            if w >= n {
                assert(part_at(lp, w) == 0);
            }
        }
    }
    false
}

/// No version is newer than itself.
pub proof fn lemma_needs_update_irreflexive(v: Seq<char>)
    ensures
        !needs_update_spec(v, v),
{
}

/// Of two versions, at most one is newer than the other.
pub proof fn lemma_needs_update_asymmetric(a: Seq<char>, b: Seq<char>)
    ensures
        !(needs_update_spec(a, b) && needs_update_spec(b, a)),
{
    let pa = version_parts(a);
    let pb = version_parts(b);
    if needs_update_spec(a, b) && needs_update_spec(b, a) {
        let i = choose|w: int|
            #![trigger part_at(pb, w)]
            0 <= w && (forall|j: int| 0 <= j < w ==> part_at(pb, j) == part_at(pa, j)) && part_at(pb, w)
                > part_at(pa, w);
        let k = choose|w: int|
            #![trigger part_at(pa, w)]
            0 <= w && (forall|j: int| 0 <= j < w ==> part_at(pa, j) == part_at(pb, j)) && part_at(pa, w)
                > part_at(pb, w);
        if i < k {
            assert(part_at(pa, i) == part_at(pb, i));
        } else if k < i {
            assert(part_at(pb, k) == part_at(pa, k));
        }
    }
}

/// Newer-than is transitive: if `b` is newer than `a` and `c` newer than
/// `b`, then `c` is newer than `a`.
pub proof fn lemma_needs_update_transitive(a: Seq<char>, b: Seq<char>, c: Seq<char>)
    requires
        needs_update_spec(a, b),
        needs_update_spec(b, c),
    ensures
        needs_update_spec(a, c),
{
    let pa = version_parts(a);
    let pb = version_parts(b);
    let pc = version_parts(c);
    let i = choose|w: int|
        #![trigger part_at(pb, w)]
        0 <= w && (forall|j: int| 0 <= j < w ==> part_at(pb, j) == part_at(pa, j)) && part_at(pb, w)
            > part_at(pa, w);
    let k = choose|w: int|
        #![trigger part_at(pc, w)]
        0 <= w && (forall|j: int| 0 <= j < w ==> part_at(pc, j) == part_at(pb, j)) && part_at(pc, w)
            > part_at(pb, w);
    let m = if i < k { i } else { k };
    assert(forall|j: int| 0 <= j < m ==> part_at(pc, j) == part_at(pa, j));
    if i < k {
        assert(part_at(pc, i) == part_at(pb, i));
    } else if k < i {
        assert(part_at(pb, k) == part_at(pa, k));
    }
    assert(part_at(pc, m) > part_at(pa, m));
}

/// Name of the release asset the application updates itself from.
pub const ASSET_NAME: &'static str = "AnimeciX-x86_64.AppImage";

/// One downloadable file of a release.
pub struct ReleaseAsset {
    pub name: String,
    pub browser_download_url: String,
}

/// A published release: its tag and files.
pub struct Release {
    pub tag_name: String,
    pub assets: Vec<ReleaseAsset>,
}

/// Index of the first asset named `name`, if any.
pub open spec fn first_asset_named(assets: Seq<ReleaseAsset>, name: Seq<char>) -> Option<int>
    decreases assets.len(),
{
    if assets.len() == 0 {
        None
    } else if assets[0].name@ == name {
        Some(0)
    } else {
        match first_asset_named(assets.drop_first(), name) {
            Some(i) => Some(i + 1),
            None => None,
        }
    }
}

/// The tag and download address that the release offers for the
/// application image: those of its first asset named `ASSET_NAME`.
pub open spec fn release_asset_spec(rel: &Release) -> Option<(Seq<char>, Seq<char>)> {
    match first_asset_named(rel.assets@, ASSET_NAME@) {
        Some(i) => Some((rel.tag_name@, rel.assets@[i].browser_download_url@)),
        None => None,
    }
}

/// Picks the tag and image address out of a release.
pub fn release_asset(rel: &Release) -> (r: Option<(String, String)>)
    ensures
        match r {
            Some((t, u)) => release_asset_spec(rel) == Some((t@, u@)),
            None => release_asset_spec(rel) is None,
        },
{
    let want = chars_of(ASSET_NAME);
    let mut i: usize = 0;
    assert(rel.assets@.skip(0) =~= rel.assets@);
    while i < rel.assets.len()
        invariant
            i <= rel.assets.len(),
            want@ == ASSET_NAME@,
            first_asset_named(rel.assets@, ASSET_NAME@) == match first_asset_named(
                rel.assets@.skip(i as int),
                ASSET_NAME@,
            ) {
                Some(k) => Some(k + i),
                None => None,
            },
        decreases rel.assets.len() - i,
    {
        let nm = chars_of(rel.assets[i].name.as_str());
        assert(rel.assets@.skip(i as int).drop_first() =~= rel.assets@.skip(i + 1));
        if chars_eq(&nm, &want) {
            let t = rel.tag_name.clone();
            let u = rel.assets[i].browser_download_url.clone();
            return Some((t, u));
        }
        i = i + 1;
    }
    None
}

/// Whether `bytes` begin with the ELF magic `7f 45 4c 46`.
pub open spec fn is_elf(bytes: Seq<u8>) -> bool {
    bytes.len() >= 4 && bytes[0] == 0x7f && bytes[1] == 0x45 && bytes[2] == 0x4c && bytes[3] == 0x46
}

/// Refuses a downloaded file that is not an executable image (no ELF magic).
pub fn check_image(bytes: &[u8]) -> (r: Result<(), String>)
    ensures
        r is Ok <==> is_elf(bytes@),
        r matches Err(m) ==> m@ == "İndirilen dosya geçerli bir AppImage değil"@,
{
    if bytes.len() < 4 || bytes[0] != 0x7f || bytes[1] != 0x45 || bytes[2] != 0x4c || bytes[3] != 0x46 {
        return Err(owned("İndirilen dosya geçerli bir AppImage değil"));
    }
    Ok(())
}


/// What the update check concludes from the latest release: nothing when
/// it is not newer than `current`; otherwise its tag and image address, or
/// `asset bulunamadı` when it offers no image.
pub fn update_offer(current: &str, rel: &Release) -> (r: Result<Option<(String, String)>, String>)
    ensures
        !needs_update_spec(current@, rel.tag_name@) ==> r matches Ok(None),
        needs_update_spec(current@, rel.tag_name@) ==> match release_asset_spec(rel) {
            Some((t, u)) => r matches Ok(Some((a, b))) && a@ == t && b@ == u,
            None => r matches Err(e) && e@ == "asset bulunamadı"@,
        },
{
    if !needs_update(current, rel.tag_name.as_str()) {
        return Ok(None);
    }
    match release_asset(rel) {
        Some((t, u)) => Ok(Some((t, u))),
        None => Err(owned("asset bulunamadı")),
    }
}

/// The question the update dialog asks about release `tag`.
pub open spec fn update_question_spec(tag: Seq<char>) -> Seq<char> {
    "AnimeciX v"@ + strip_v(tag) + " yayınlandı. İndirip uygulamayı güncelleyelim mi?"@
}

/// Builds the update dialog's question.
pub fn update_question(tag: &str) -> (r: String)
    ensures
        r@ == update_question_spec(tag@),
{
    let t = chars_of(tag);
    let mut a: usize = 0;
    assert(t@.skip(0) =~= t@);
    while a < t.len() && t[a] == 'v'
        invariant
            a <= t.len(),
            strip_v(t@) == strip_v(t@.skip(a as int)),
        decreases t.len() - a,
    {
        assert(t@.skip(a as int).drop_first() =~= t@.skip(a + 1));
        a = a + 1;
    }
    let rest = crate::text::sub_vec(&t, a, t.len());
    assert(rest@ =~= t@.skip(a as int));
    let mut out = chars_of("AnimeciX v");
    crate::text::extend_chars(&mut out, &rest);
    crate::text::extend_str(&mut out, " yayınlandı. İndirip uygulamayı güncelleyelim mi?");
    crate::text::string_from(&out)
}

} // verus!
