//! Cover pictures: the size classes of a cover, which image size is
//! fetched, the cache keys of scaled covers and the queue of downloads.

use vstd::prelude::*;
use crate::text::{
    after_sub, chars_eq, chars_of, decimal, extend_chars, extend_str, find_char_in, find_sub, find_sub_in,
    int_decimal, i64_decimal, lemma_find_char, lemma_find_sub, parse_i32_in, parse_i32_spec, range_starts_with,
    starts_with, string_from, sub_vec, find_char,
};

verus! {

/// The style class of a cover `w` pixels wide.
pub open spec fn size_class_spec(w: i32) -> Seq<char> {
    if 0 <= w <= 60 {
        "cover-thumb"@
    } else if 61 <= w <= 130 {
        "cover-header"@
    } else if 131 <= w <= 150 {
        "cover-shelf"@
    } else {
        "cover-movie-header"@
    }
}

/// The style class of a cover of width `w`.
pub fn size_class(w: i32) -> (r: &'static str)
    ensures
        r@ == size_class_spec(w),
{
    if 0 <= w && w <= 60 {
        "cover-thumb"
    } else if 61 <= w && w <= 130 {
        "cover-header"
    } else if 131 <= w && w <= 150 {
        "cover-shelf"
    } else {
        "cover-movie-header"
    }
}

/// The class that fixes a cover to `w`×`h` pixels.
pub fn fixed_class(w: i32, h: i32) -> (r: String)
    ensures
        r@ == "cover-fixed-"@ + int_decimal(w as int) + "-"@ + int_decimal(h as int),
{
    let mut v = chars_of("cover-fixed-");
    let a = i64_decimal(w as i64);
    extend_chars(&mut v, &a);
    extend_str(&mut v, "-");
    let b = i64_decimal(h as i64);
    extend_chars(&mut v, &b);
    string_from(&v)
}

/// The style rule behind `fixed_class(w, h)`.
pub open spec fn fixed_css_spec(w: i32, h: i32) -> Seq<char> {
    let ws = int_decimal(w as int);
    let hs = int_decimal(h as int);
    ".cover-fixed-"@ + ws + "-"@ + hs + " { min-width:"@ + ws + "px !important; max-width:"@ + ws
        + "px !important; width:"@ + ws + "px !important; min-height:"@ + hs + "px !important; max-height:"@ + hs
        + "px !important; height:"@ + hs + "px !important; }"@
}

/// Writes the style rule that fixes a cover's size.
pub fn fixed_css(w: i32, h: i32) -> (r: String)
    ensures
        r@ == fixed_css_spec(w, h),
{
    let ws = i64_decimal(w as i64);
    let hs = i64_decimal(h as i64);
    let mut v = chars_of(".cover-fixed-");
    extend_chars(&mut v, &ws);
    extend_str(&mut v, "-");
    extend_chars(&mut v, &hs);
    extend_str(&mut v, " { min-width:");
    extend_chars(&mut v, &ws);
    extend_str(&mut v, "px !important; max-width:");
    extend_chars(&mut v, &ws);
    extend_str(&mut v, "px !important; width:");
    extend_chars(&mut v, &ws);
    extend_str(&mut v, "px !important; min-height:");
    extend_chars(&mut v, &hs);
    extend_str(&mut v, "px !important; max-height:");
    extend_chars(&mut v, &hs);
    extend_str(&mut v, "px !important; height:");
    extend_chars(&mut v, &hs);
    extend_str(&mut v, "px !important; }");
    string_from(&v)
}

/// `s` with every occurrence of `p` (left to right, not overlapping)
/// replaced by `by` (`str::replace`).
pub open spec fn replace_all(s: Seq<char>, p: Seq<char>, by: Seq<char>) -> Seq<char>
    decreases s.len(),
{
    match find_sub(s, p) {
        Some(i) => if 0 <= i && i + p.len() <= s.len() && p.len() > 0 {
            s.take(i) + by + replace_all(s.skip(i + p.len()), p, by)
        } else {
            s
        },
        None => s,
    }
}

pub(crate) fn replace_all_vec(s: &Vec<char>, p: &str, by: &str) -> (r: Vec<char>)
    requires
        p@.len() > 0,
    ensures
        r@ == replace_all(s@, p@, by@),
{
    let pv = chars_of(p);
    let mut out: Vec<char> = Vec::new();
    let mut i: usize = 0;
    assert(s@.skip(0) =~= s@);
    loop
        invariant
            i <= s.len(),
            pv@ == p@,
            p@.len() > 0,
            replace_all(s@, p@, by@) == out@ + replace_all(s@.skip(i as int), p@, by@),
        decreases s.len() - i,
    {
        let ghost rest = s@.skip(i as int);
        proof { lemma_find_sub(rest, p@); }
        match find_sub_in(s, i, &pv) {
            None => {
                let tail = sub_vec(s, i, s.len());
                assert(tail@ =~= rest);
                extend_chars(&mut out, &tail);
                return out;
            },
            Some(j) => {
                let head = sub_vec(s, i, j);
                assert(head@ =~= rest.take(j - i));
                extend_chars(&mut out, &head);
                extend_str(&mut out, by);
                assert(rest.skip(j - i + p@.len()) =~= s@.skip(j + p@.len()));
                assert(replace_all(rest, p@, by@) == rest.take(j - i) + by@ + replace_all(s@.skip(j + p@.len()), p@, by@));
                assert(out@ + replace_all(s@.skip(j + p@.len()), p@, by@) =~= replace_all(s@, p@, by@));
                i = j + pv.len();
            },
        }
    }
}

/// The image actually fetched for a cover: TMDB's `original`, `w500` and
/// `w342` sizes are swapped for `w185`.
pub open spec fn cover_url_spec(url: Seq<char>) -> Seq<char> {
    replace_all(
        replace_all(
            replace_all(url, "image.tmdb.org/t/p/original"@, "image.tmdb.org/t/p/w185"@),
            "image.tmdb.org/t/p/w500"@,
            "image.tmdb.org/t/p/w185"@,
        ),
        "image.tmdb.org/t/p/w342"@,
        "image.tmdb.org/t/p/w185"@,
    )
}

/// The address a cover is fetched from.
pub fn cover_url(url: &str) -> (r: String)
    ensures
        r@ == cover_url_spec(url@),
{
    proof {
        reveal_strlit("image.tmdb.org/t/p/original");
        reveal_strlit("image.tmdb.org/t/p/w500");
        reveal_strlit("image.tmdb.org/t/p/w342");
    }
    let u = chars_of(url);
    let a = replace_all_vec(&u, "image.tmdb.org/t/p/original", "image.tmdb.org/t/p/w185");
    let b = replace_all_vec(&a, "image.tmdb.org/t/p/w500", "image.tmdb.org/t/p/w185");
    let c = replace_all_vec(&b, "image.tmdb.org/t/p/w342", "image.tmdb.org/t/p/w185");
    string_from(&c)
}

/// The cache key of a cover scaled to `w`×`h`: `{url}@{w}x{h}`.
pub open spec fn cover_key_spec(url: Seq<char>, w: i32, h: i32) -> Seq<char> {
    url + "@"@ + int_decimal(w as int) + "x"@ + int_decimal(h as int)
}

/// Builds the cache key of a scaled cover.
pub fn cover_key(url: &str, w: i32, h: i32) -> (r: String)
    ensures
        r@ == cover_key_spec(url@, w, h),
{
    let mut v = chars_of(url);
    extend_str(&mut v, "@");
    let a = i64_decimal(w as i64);
    extend_chars(&mut v, &a);
    extend_str(&mut v, "x");
    let b = i64_decimal(h as i64);
    extend_chars(&mut v, &b);
    string_from(&v)
}

/// The size a waiting key of `url` asks for: what follows `{url}@`, split
/// at the first `x`, both halves read as `i32`.
pub open spec fn key_size_spec(key: Seq<char>, url: Seq<char>) -> Option<(i32, i32)> {
    if starts_with(key, url) && key.len() > url.len() && key[url.len() as int] == '@' {
        let rest = key.skip(url.len() as int + 1);
        match find_char(rest, 'x') {
            Some(i) => match (parse_i32_spec(rest.take(i)), parse_i32_spec(rest.skip(i + 1))) {
                (Some(w), Some(h)) => Some((w, h)),
                _ => None,
            },
            None => None,
        }
    } else {
        None
    }
}

/// Reads the size out of a waiting key of `url`.
pub fn key_size(key: &str, url: &str) -> (r: Option<(i32, i32)>)
    ensures
        r == key_size_spec(key@, url@),
{
    let k = chars_of(key);
    let u = chars_of(url);
    assert(k@.subrange(0, k@.len() as int) =~= k@);
    if !range_starts_with(&k, 0, k.len(), &u) {
        return None;
    }
    let n = u.len();
    if !(k.len() > n && k[n] == '@') {
        return None;
    }
    let ghost rest = k@.skip(n + 1);
    proof { lemma_find_char(rest, 'x'); }
    assert(k@.subrange(n + 1, k@.len() as int) =~= rest);
    match find_char_in(&k, n + 1, k.len(), 'x') {
        Some(i) => {
            assert(k@.subrange(n + 1, i as int) =~= rest.take(i - (n + 1)));
            assert(k@.subrange(i + 1, k@.len() as int) =~= rest.skip(i - (n + 1) + 1));
            match (parse_i32_in(&k, n + 1, i), parse_i32_in(&k, i + 1, k.len())) {
                (Some(w), Some(h)) => Some((w, h)),
                _ => None,
            }
        },
        None => None,
    }
}

/// Most covers loaded at the same time.
pub const MAX_COVER_WORKERS: usize = 12;

/// The covers waiting to be loaded, in order, each address once.
pub struct CoverQueue {
    pub urls: Vec<String>,
}

pub open spec fn url_views(v: Seq<String>) -> Seq<Seq<char>> {
    v.map_values(|s: String| s@)
}

impl CoverQueue {
    /// An empty queue.
    pub fn new() -> (r: CoverQueue)
        ensures
            r.urls@.len() == 0,
    {
        CoverQueue { urls: Vec::new() }
    }

    /// Queues `url` at the end unless it is waiting already.
    pub fn enqueue(&mut self, url: String)
        ensures
            url_views(old(self).urls@).contains(url@) ==> url_views(final(self).urls@) == url_views(old(self).urls@),
            !url_views(old(self).urls@).contains(url@) ==> url_views(final(self).urls@) == url_views(old(self).urls@).push(url@),
    {
        let ghost uv = url_views(self.urls@);
        let mut i: usize = 0;
        let target = chars_of(url.as_str());
        while i < self.urls.len()
            invariant
                i <= self.urls.len(),
                uv == url_views(self.urls@),
                target@ == url@,
                forall|k: int| 0 <= k < i ==> uv[k] != url@,
            decreases self.urls.len() - i,
        {
            let c = chars_of(self.urls[i].as_str());
            if chars_eq(&c, &target) {
                assert(uv[i as int] == url@);
                return;
            }
            i = i + 1;
        }
        self.urls.push(url);
        assert(url_views(self.urls@) =~= uv.push(url@));
    }

    /// The next cover to load, if a worker is free and one is waiting.
    pub fn next(&mut self, active: usize) -> (r: Option<String>)
        ensures
            (active >= MAX_COVER_WORKERS || old(self).urls@.len() == 0) ==> r is None && final(self).urls@ == old(self).urls@,
            (active < MAX_COVER_WORKERS && old(self).urls@.len() > 0) ==> r == Some(old(self).urls@[0])
                && final(self).urls@ == old(self).urls@.drop_first(),
    {
        if active >= MAX_COVER_WORKERS || self.urls.len() == 0 {
            return None;
        }
        let u = self.urls.remove(0);
        assert(self.urls@ =~= old(self).urls@.drop_first());
        Some(u)
    }
}

/// Most scaled covers kept before the cache is emptied.
pub const COVER_CACHE_LIMIT: usize = 40;

/// Whether the cover cache is full and must be emptied before more go in.
pub fn cache_full(len: usize) -> (r: bool)
    ensures
        r == (len > COVER_CACHE_LIMIT),
{
    len > COVER_CACHE_LIMIT
}


/// A scaled cover's key reads back as the size it was made with.
pub proof fn lemma_cover_key_round_trip(url: Seq<char>, w: i32, h: i32)
    ensures
        key_size_spec(cover_key_spec(url, w, h), url) == Some((w, h)),
{
    reveal_strlit("@");
    reveal_strlit("x");
    let ws = int_decimal(w as int);
    let hs = int_decimal(h as int);
    crate::text::lemma_parse_int_decimal(w as i64);
    crate::text::lemma_parse_int_decimal(h as i64);
    let key = cover_key_spec(url, w, h);
    assert(key =~= url + seq!['@'] + ws + seq!['x'] + hs);
    assert(key.take(url.len() as int) =~= url);
    let rest = key.skip(url.len() as int + 1);
    assert(rest =~= ws + seq!['x'] + hs);
    lemma_find_char(rest, 'x');
    assert(rest[ws.len() as int] == 'x');
    match find_char(rest, 'x') {
        Some(i) => {
            if i < ws.len() {
                assert(rest[i] == ws[i]);
                assert(crate::text::is_digit(ws[i]) || ws[i] == '-');
            } else if i > ws.len() {
                assert(rest[ws.len() as int] != 'x');
            }
        },
        None => {
            assert(rest.contains('x'));
        },
    }
    assert(rest.take(ws.len() as int) =~= ws);
    assert(rest.skip(ws.len() as int + 1) =~= hs);
}


/// The waiting keys a failed load of `url` settles (as "no cover"): those
/// that start with the address.
pub open spec fn failed_keys_spec(keys: Seq<Seq<char>>, url: Seq<char>) -> Seq<Seq<char>>
    decreases keys.len(),
{
    if keys.len() == 0 {
        Seq::empty()
    } else if starts_with(keys.last(), url) {
        failed_keys_spec(keys.drop_last(), url).push(keys.last())
    } else {
        failed_keys_spec(keys.drop_last(), url)
    }
}

/// Picks the waiting keys a failed load settles.
pub fn failed_keys(keys: &Vec<String>, url: &str) -> (r: Vec<String>)
    ensures
        url_views(r@) == failed_keys_spec(url_views(keys@), url@),
{
    let ghost kv = url_views(keys@);
    let u = chars_of(url);
    let mut out: Vec<String> = Vec::new();
    let mut i: usize = 0;
    while i < keys.len()
        invariant
            i <= keys@.len(),
            kv == url_views(keys@),
            u@ == url@,
            url_views(out@) == failed_keys_spec(kv.take(i as int), url@),
        decreases keys@.len() - i,
    {
        assert(kv.take(i as int + 1).drop_last() =~= kv.take(i as int));
        assert(kv.take(i as int + 1).last() == keys@[i as int]@);
        let k = chars_of(keys[i].as_str());
        assert(k@.subrange(0, k@.len() as int) =~= k@);
        if range_starts_with(&k, 0, k.len(), &u) {
            let ghost before = out@;
            out.push(keys[i].clone());
            assert(url_views(out@) =~= url_views(before).push(keys@[i as int]@));
        }
        i = i + 1;
    }
    assert(kv.take(keys@.len() as int) =~= kv);
    out
}

/// The waiting keys a loaded `url` serves, each with the size it asks for.
pub open spec fn loaded_keys_spec(keys: Seq<Seq<char>>, url: Seq<char>) -> Seq<(Seq<char>, i32, i32)>
    decreases keys.len(),
{
    if keys.len() == 0 {
        Seq::empty()
    } else {
        match key_size_spec(keys.last(), url) {
            Some((w, h)) => loaded_keys_spec(keys.drop_last(), url).push((keys.last(), w, h)),
            None => loaded_keys_spec(keys.drop_last(), url),
        }
    }
}

pub open spec fn sized_key_views(v: Seq<(String, i32, i32)>) -> Seq<(Seq<char>, i32, i32)> {
    v.map_values(|p: (String, i32, i32)| (p.0@, p.1, p.2))
}

/// Picks the waiting keys a loaded cover serves, with their sizes.
pub fn loaded_keys(keys: &Vec<String>, url: &str) -> (r: Vec<(String, i32, i32)>)
    ensures
        sized_key_views(r@) == loaded_keys_spec(url_views(keys@), url@),
{
    let ghost kv = url_views(keys@);
    let mut out: Vec<(String, i32, i32)> = Vec::new();
    let mut i: usize = 0;
    while i < keys.len()
        invariant
            i <= keys@.len(),
            kv == url_views(keys@),
            sized_key_views(out@) == loaded_keys_spec(kv.take(i as int), url@),
        decreases keys@.len() - i,
    {
        assert(kv.take(i as int + 1).drop_last() =~= kv.take(i as int));
        assert(kv.take(i as int + 1).last() == keys@[i as int]@);
        match key_size(keys[i].as_str(), url) {
            Some((w, h)) => {
                let ghost before = out@;
                out.push((keys[i].clone(), w, h));
                assert(sized_key_views(out@) =~= sized_key_views(before).push((keys@[i as int]@, w, h)));
            },
            None => {},
        }
        i = i + 1;
    }
    assert(kv.take(keys@.len() as int) =~= kv);
    out
}

} // verus!
