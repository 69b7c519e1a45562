//! Video pages and the hosts behind them: the host name of an address, which
//! resolver an embed address goes to, and reading the direct video address
//! out of what a host answers.

use vstd::prelude::*;
use crate::text::{
    after_sub, after_sub_in, chars_of, contains_sub, extend_chars, extend_str, find_char, find_char_in,
    find_sub, find_sub_in, lemma_find_char, lemma_find_sub, owned, string_from, sub_vec, utf8_len,
    utf8_len_capped,
};

verus! {

/// `s` up to its first `c` (the first piece of `s.split(c)`).
pub open spec fn before_char(s: Seq<char>, c: char) -> Seq<char> {
    match find_char(s, c) {
        Some(i) => s.take(i),
        None => s,
    }
}

/// The host part of an address: between the first `//` and the next `/`;
/// without `//`, the address up to its first `/`.
pub open spec fn host_part_spec(url: Seq<char>) -> Seq<char> {
    let a = match after_sub(url, "//"@) {
        Some(x) => x,
        None => url,
    };
    before_char(a, '/')
}

/// The short host name of an address: its host part up to the first `.`
/// (`https://tau-video.xyz/embed/..` gives `tau-video`).
pub open spec fn extract_host_spec(url: Seq<char>) -> Seq<char> {
    before_char(host_part_spec(url), '.')
}

fn before_char_vec(s: &Vec<char>, c: char) -> (r: Vec<char>)
    ensures
        r@ == before_char(s@, c),
{
    proof { lemma_find_char(s@, c); }
    assert(s@.subrange(0, s@.len() as int) =~= s@);
    match find_char_in(s, 0, s.len(), c) {
        Some(i) => {
            let r = sub_vec(s, 0, i);
            assert(r@ =~= s@.take(i as int));
            r
        },
        None => {
            let r = sub_vec(s, 0, s.len());
            r
        },
    }
}

fn host_part_vec(url: &Vec<char>) -> (r: Vec<char>)
    ensures
        r@ == host_part_spec(url@),
{
    let sep = chars_of("//");
    proof { reveal_strlit("//"); }
    assert(url@.skip(0) =~= url@);
    let a = match after_sub_in(url, 0, &sep) {
        Some(x) => x,
        None => sub_vec(url, 0, url.len()),
    };
    assert(url@.subrange(0, url@.len() as int) =~= url@);
    before_char_vec(&a, '/')
}

/// The host part of an address.
pub fn host_part(url: &str) -> (r: String)
    ensures
        r@ == host_part_spec(url@),
{
    let u = chars_of(url);
    let h = host_part_vec(&u);
    string_from(&h)
}

/// The short host name of an address (the source list shows it).
pub fn extract_host(url: &str) -> (r: String)
    ensures
        r@ == extract_host_spec(url@),
{
    let u = chars_of(url);
    let h = host_part_vec(&u);
    let n = before_char_vec(&h, '.');
    string_from(&n)
}

/// What `char::to_uppercase` gives a character (one to three characters).
pub uninterp spec fn uppercase(c: char) -> Seq<char>;

/// Uppercases one character with std's `char::to_uppercase`.
#[verifier::external_body]
fn char_uppercase(c: char) -> (r: String)
    ensures
        r@ == uppercase(c),
{
    c.to_uppercase().collect::<String>()
}

/// The display name of a host: the known ones by name, others with their
/// first character uppercased.
pub open spec fn host_label_spec(host: Seq<char>) -> Seq<char> {
    if host == "tau-video"@ || host == "tau"@ {
        "Tau Video"@
    } else if host == "sibnet"@ {
        "Sibnet"@
    } else if host == "streamtape"@ {
        "Streamtape"@
    } else if host.len() == 0 {
        Seq::empty()
    } else {
        uppercase(host[0]) + host.drop_first()
    }
}

/// The name a host is shown with in the source list.
pub fn capitalize_host(host: &str) -> (r: String)
    ensures
        r@ == host_label_spec(host@),
{
    let h = chars_of(host);
    if crate::text::str_eq(host, "tau-video") || crate::text::str_eq(host, "tau") {
        return owned("Tau Video");
    }
    if crate::text::str_eq(host, "sibnet") {
        return owned("Sibnet");
    }
    if crate::text::str_eq(host, "streamtape") {
        return owned("Streamtape");
    }
    if h.len() == 0 {
        return String::new();
    }
    let up = char_uppercase(h[0]);
    let mut out = chars_of(up.as_str());
    let rest = sub_vec(&h, 1, h.len());
    assert(rest@ =~= h@.drop_first());
    extend_chars(&mut out, &rest);
    string_from(&out)
}

/// `s` without the `c` characters at its end (`trim_end_matches(c)`).
pub open spec fn trim_end_char(s: Seq<char>, c: char) -> Seq<char>
    decreases s.len(),
{
    if s.len() > 0 && s.last() == c { trim_end_char(s.drop_last(), c) } else { s }
}

/// Where an embed address is resolved.
#[derive(Clone, Debug)]
pub enum EmbedKind {
    /// A tau-video embed with its id and `vid` parameter.
    Tau { embed_id: String, vid: String },
    Sibnet,
    Streamtape,
    /// No resolver; the message says which host.
    Unsupported(String),
}

/// The tau-video id and `vid` of an embed address: what follows the
/// first `/embed/` (up to a second one) split at `?vid=`; without `?vid=`,
/// the whole of it less trailing `?` and an empty `vid`.
pub open spec fn tau_parts(url: Seq<char>) -> (Seq<char>, Seq<char>) {
    let rest = match after_sub(url, "/embed/"@) {
        Some(r) => r,
        None => Seq::empty(),
    };
    match find_sub(rest, "?vid="@) {
        Some(i) => (rest.take(i), rest.skip(i + 5)),
        None => (trim_end_char(rest, '?'), Seq::empty()),
    }
}

/// Which resolver an embed address goes to: tau-video when the address
/// names it and its id is at least 24 bytes long, else sibnet, else
/// streamtape, else none (with the host in the message).
pub open spec fn embed_kind_spec(url: Seq<char>) -> (Option<(Seq<char>, Seq<char>)>, nat, Seq<char>) {
    let tau = contains_sub(url, "tau-video.xyz"@) && utf8_len(tau_parts(url).0) >= 24;
    if tau {
        (Some(tau_parts(url)), 0, Seq::empty())
    } else if contains_sub(url, "sibnet.ru"@) {
        (None, 1, Seq::empty())
    } else if contains_sub(url, "streamtape.com"@) {
        (None, 2, Seq::empty())
    } else {
        (None, 3, host_part_spec(url) + " kaynağı şu an çözülemiyor"@)
    }
}

/// The spec view of an embed decision.
pub open spec fn embed_kind_view(k: EmbedKind) -> (Option<(Seq<char>, Seq<char>)>, nat, Seq<char>) {
    match k {
        EmbedKind::Tau { embed_id, vid } => (Some((embed_id@, vid@)), 0, Seq::empty()),
        EmbedKind::Sibnet => (None, 1, Seq::empty()),
        EmbedKind::Streamtape => (None, 2, Seq::empty()),
        EmbedKind::Unsupported(m) => (None, 3, m@),
    }
}

fn contains_str(s: &Vec<char>, p: &str) -> (r: bool)
    ensures
        r == contains_sub(s@, p@),
{
    let pv = chars_of(p);
    assert(s@.skip(0) =~= s@);
    find_sub_in(s, 0, &pv).is_some()
}

fn trim_end_char_vec(s: &Vec<char>, c: char) -> (r: Vec<char>)
    ensures
        r@ == trim_end_char(s@, c),
{
    let mut n = s.len();
    assert(s@.take(n as int) =~= s@);
    while n > 0 && s[n - 1] == c
        invariant
            n <= s.len(),
            trim_end_char(s@, c) == trim_end_char(s@.take(n as int), c),
        decreases n,
    {
        assert(s@.take(n as int).drop_last() =~= s@.take(n - 1));
        n = n - 1;
    }
    let r = sub_vec(s, 0, n);
    assert(r@ =~= s@.take(n as int));
    r
}

/// Decides which resolver an embed address goes to.
pub fn classify_embed(url: &str) -> (r: EmbedKind)
    ensures
        embed_kind_view(r) == embed_kind_spec(url@),
{
    let u = chars_of(url);
    if contains_str(&u, "tau-video.xyz") {
        let emb = chars_of("/embed/");
        proof { reveal_strlit("/embed/"); }
        assert(u@.skip(0) =~= u@);
        let rest = match after_sub_in(&u, 0, &emb) {
            Some(r) => r,
            None => Vec::new(),
        };
        let key = chars_of("?vid=");
        proof {
            reveal_strlit("?vid=");
            lemma_find_sub(rest@, key@);
        }
        assert(rest@.skip(0) =~= rest@);
        let (id, vid) = match find_sub_in(&rest, 0, &key) {
            Some(i) => (sub_vec(&rest, 0, i), sub_vec(&rest, i + 5, rest.len())),
            None => (trim_end_char_vec(&rest, '?'), Vec::new()),
        };
        assert(id@ == tau_parts(url@).0 && vid@ == tau_parts(url@).1);
        if utf8_len_capped(&id, 0, id.len(), 24) >= 24 {
            assert(id@.subrange(0, id@.len() as int) =~= id@);
            return EmbedKind::Tau { embed_id: string_from(&id), vid: string_from(&vid) };
        }
        assert(id@.subrange(0, id@.len() as int) =~= id@);
    }
    if contains_str(&u, "sibnet.ru") {
        return EmbedKind::Sibnet;
    }
    if contains_str(&u, "streamtape.com") {
        return EmbedKind::Streamtape;
    }
    let mut m = host_part_vec(&u);
    extend_str(&mut m, " kaynağı şu an çözülemiyor");
    EmbedKind::Unsupported(string_from(&m))
}

/// The direct address on a sibnet player page: from the first `/v/` to the
/// end of the `.mp4` that follows, on `video.sibnet.ru`.
pub open spec fn sibnet_spec(html: Seq<char>) -> Option<Seq<char>> {
    match find_sub(html, "/v/"@) {
        Some(pos) => match find_sub(html.skip(pos), ".mp4"@) {
            Some(p) => Some("https://video.sibnet.ru"@ + html.subrange(pos, pos + p + 4)),
            None => None,
        },
        None => None,
    }
}

/// Reads the video address out of a sibnet page.
pub fn sibnet_mp4_url(html: &str) -> (r: Result<String, String>)
    ensures
        r is Ok <==> sibnet_spec(html@) is Some,
        r matches Ok(u) ==> sibnet_spec(html@) == Some(u@),
        r matches Err(e) ==> e@ == "sibnet mp4 bulunamadı"@,
{
    let h = chars_of(html);
    let v = chars_of("/v/");
    let mp4 = chars_of(".mp4");
    assert(h@.skip(0) =~= h@);
    proof {
        reveal_strlit("/v/");
        reveal_strlit(".mp4");
        lemma_find_sub(h@, v@);
    }
    if let Some(pos) = find_sub_in(&h, 0, &v) {
        assert(v@.len() == 3);
        assert(pos + 3 <= h.len());
        proof { lemma_find_sub(h@.skip(pos as int), mp4@); }
        if let Some(q) = find_sub_in(&h, pos, &mp4) {
            assert(mp4@.len() == 4);
            assert(h@.skip(pos as int).len() == h.len() - pos);
            assert(q - pos + 4 <= h.len() - pos);
            let path = sub_vec(&h, pos, q + 4);
            let mut out = chars_of("https://video.sibnet.ru");
            extend_chars(&mut out, &path);
            return Ok(string_from(&out));
        }
    }
    Err(owned("sibnet mp4 bulunamadı"))
}

/// Characters that end a streamtape video id.
pub open spec fn id_stop(c: char) -> bool {
    c == '"' || c == '\'' || c == '<' || c == ' ' || c == ')'
}

/// Index of the first stopping character in `s` (its length when none).
pub open spec fn stop_at(s: Seq<char>) -> int
    decreases s.len(),
{
    if s.len() == 0 {
        0
    } else if id_stop(s[0]) {
        0
    } else {
        1 + stop_at(s.drop_first())
    }
}

proof fn lemma_stop_at(s: Seq<char>)
    ensures
        0 <= stop_at(s) <= s.len(),
        forall|k: int| 0 <= k < stop_at(s) ==> !id_stop(#[trigger] s[k]),
        stop_at(s) < s.len() ==> id_stop(s[stop_at(s)]),
    decreases s.len(),
{
    if s.len() > 0 && !id_stop(s[0]) {
        lemma_stop_at(s.drop_first());
        assert forall|k: int| 0 < k < stop_at(s) implies !id_stop(#[trigger] s[k]) by {
            assert(s[k] == s.drop_first()[k - 1]);
        }
    }
}

/// The direct address on a streamtape page: refused when the page says
/// `"nofile"`; otherwise the `get_video?id=..` link (up to a quote, `<`,
/// space or `)`), accepted when longer than 30 bytes.
pub open spec fn streamtape_spec(html: Seq<char>) -> Result<Seq<char>, Seq<char>> {
    if contains_sub(html, "\"nofile\""@) {
        Err("streamtape videosu kaldırılmış"@)
    } else {
        match find_sub(html, "get_video?id="@) {
            Some(start) => {
                let id = html.subrange(start, start + 13 + stop_at(html.skip(start + 13)));
                if utf8_len(id) > 30 {
                    Ok("https://streamtape.com/"@ + id)
                } else {
                    Err("streamtape çözülemedi"@)
                }
            },
            None => Err("streamtape çözülemedi"@),
        }
    }
}

/// Reads the video address out of a streamtape page.
pub fn streamtape_url(html: &str) -> (r: Result<String, String>)
    ensures
        match (r, streamtape_spec(html@)) {
            (Ok(a), Ok(b)) => a@ == b,
            (Err(a), Err(b)) => a@ == b,
            _ => false,
        },
{
    let h = chars_of(html);
    if contains_str(&h, "\"nofile\"") {
        return Err(owned("streamtape videosu kaldırılmış"));
    }
    let key = chars_of("get_video?id=");
    proof {
        reveal_strlit("get_video?id=");
        lemma_find_sub(h@, key@);
    }
    assert(h@.skip(0) =~= h@);
    match find_sub_in(&h, 0, &key) {
        Some(start) => {
            let mut end = start + 13;
            proof { lemma_stop_at(h@.skip(start + 13)); }
            while end < h.len() && !(h[end] == '"' || h[end] == '\'' || h[end] == '<' || h[end] == ' ' || h[end] == ')')
                invariant
                    start + 13 <= end <= h.len(),
                    forall|k: int| start + 13 <= k < end ==> !id_stop(#[trigger] h@[k]),
                decreases h.len() - end,
            {
                end = end + 1;
            }
            proof {
                let t = h@.skip(start + 13);
                lemma_stop_at(t);
                let e = end - (start + 13);
                if stop_at(t) < e {
                    assert(t[stop_at(t)] == h@[start + 13 + stop_at(t)]);
                } else if stop_at(t) > e {
                    assert(t[e] == h@[end as int]);
                }
                assert(stop_at(t) == e);
            }
            if utf8_len_capped(&h, start, end, 31) > 30 {
                let id = sub_vec(&h, start, end);
                let mut out = chars_of("https://streamtape.com/");
                extend_chars(&mut out, &id);
                Ok(string_from(&out))
            } else {
                Err(owned("streamtape çözülemedi"))
            }
        },
        None => Err(owned("streamtape çözülemedi")),
    }
}

/// The address of the tau-video answer for an embed: the id, then the
/// `vid` parameter when there is one.
pub open spec fn tau_api_spec(embed_id: Seq<char>, vid: Seq<char>) -> Seq<char> {
    "https://tau-video.xyz/api/video/"@ + embed_id + if vid.len() > 0 { "?vid="@ + vid } else { Seq::empty() }
}

/// Builds the tau-video request address.
pub fn tau_api_url(embed_id: &str, vid: &str) -> (r: String)
    ensures
        r@ == tau_api_spec(embed_id@, vid@),
{
    let mut out = chars_of("https://tau-video.xyz/api/video/");
    extend_str(&mut out, embed_id);
    if !vid.is_empty() {
        extend_str(&mut out, "?vid=");
        extend_str(&mut out, vid);
    }
    string_from(&out)
}

/// Index of the first entry with an address and the label `1080p`.
pub open spec fn first_hd(urls: Seq<(Option<Seq<char>>, Option<Seq<char>>)>) -> Option<int>
    decreases urls.len(),
{
    if urls.len() == 0 {
        None
    } else {
        match first_hd(urls.drop_last()) {
            Some(i) => Some(i),
            None => if urls.last().1 is Some && urls.last().0 == Some("1080p"@) { Some(urls.len() - 1) } else { None },
        }
    }
}

/// Index of the first entry with an address.
pub open spec fn first_with_url(urls: Seq<(Option<Seq<char>>, Option<Seq<char>>)>) -> Option<int>
    decreases urls.len(),
{
    if urls.len() == 0 {
        None
    } else {
        match first_with_url(urls.drop_last()) {
            Some(i) => Some(i),
            None => if urls.last().1 is Some { Some(urls.len() - 1) } else { None },
        }
    }
}

/// The address chosen among tau-video's (label, address) entries: the
/// first `1080p` one, else the first one.
pub open spec fn pick_tau_spec(urls: Seq<(Option<Seq<char>>, Option<Seq<char>>)>) -> Option<Seq<char>> {
    match first_hd(urls) {
        Some(i) => urls[i].1,
        None => match first_with_url(urls) {
            Some(i) => urls[i].1,
            None => None,
        },
    }
}

pub open spec fn pair_views(v: Seq<(Option<String>, Option<String>)>) -> Seq<(Option<Seq<char>>, Option<Seq<char>>)> {
    v.map_values(|p: (Option<String>, Option<String>)| (crate::stream::opt_view(p.0), crate::stream::opt_view(p.1)))
}

proof fn lemma_first_hd(s: Seq<(Option<Seq<char>>, Option<Seq<char>>)>)
    ensures
        first_hd(s) matches Some(i) ==> 0 <= i < s.len() && s[i].1 is Some && s[i].0 == Some("1080p"@),
        first_with_url(s) matches Some(i) ==> 0 <= i < s.len() && s[i].1 is Some,
        first_with_url(s) is None ==> first_hd(s) is None,
    decreases s.len(),
{
    if s.len() > 0 {
        lemma_first_hd(s.drop_last());
    }
}

/// Chooses the video address out of tau-video's answer entries.
pub fn pick_tau_url(urls: &Vec<(Option<String>, Option<String>)>) -> (r: Result<String, String>)
    ensures
        r is Ok <==> pick_tau_spec(pair_views(urls@)) is Some,
        r matches Ok(u) ==> pick_tau_spec(pair_views(urls@)) == Some(u@),
        r matches Err(e) ==> e@ == "tau-video url bulunamadı"@,
{
    let ghost pv = pair_views(urls@);
    let mut best: Option<usize> = None;
    let mut i: usize = 0;
    let hd = chars_of("1080p");
    while i < urls.len()
        invariant
            i <= urls.len(),
            pv == pair_views(urls@),
            hd@ == "1080p"@,
            first_hd(pv.take(i as int)) is None,
            best == match first_with_url(pv.take(i as int)) { Some(k) => Some(k as usize), None => None },
            match first_with_url(pv.take(i as int)) { Some(k) => 0 <= k < i, None => true },
        decreases urls.len() - i,
    {
        assert(pv.take(i as int + 1).drop_last() =~= pv.take(i as int));
        if urls[i].1.is_some() {
            let is_hd = match &urls[i].0 {
                Some(l) => {
                    let lv = chars_of(l.as_str());
                    crate::text::chars_eq(&lv, &hd)
                },
                None => false,
            };
            if is_hd {
                proof {
                    lemma_prefix_first_hd(pv, i as int + 1);
                }
                return match &urls[i].1 {
                    Some(u) => Ok(u.clone()),
                    None => Err(owned("tau-video url bulunamadı")),
                };
            }
            if best.is_none() {
                best = Some(i);
            }
        }
        i = i + 1;
    }
    assert(pv.take(urls.len() as int) =~= pv);
    proof { lemma_first_hd(pv); }
    match best {
        Some(k) => match &urls[k].1 {
            Some(u) => Ok(u.clone()),
            None => Err(owned("tau-video url bulunamadı")),
        },
        None => Err(owned("tau-video url bulunamadı")),
    }
}

proof fn lemma_prefix_first_hd(s: Seq<(Option<Seq<char>>, Option<Seq<char>>)>, n: int)
    requires
        0 <= n <= s.len(),
        first_hd(s.take(n)) is Some,
    ensures
        first_hd(s) == first_hd(s.take(n)),
    decreases s.len() - n,
{
    if n < s.len() {
        assert(s.take(n + 1).drop_last() =~= s.take(n));
        lemma_prefix_first_hd(s, n + 1);
    } else {
        assert(s.take(n) =~= s);
    }
}

/// `char::is_ascii_hexdigit`.
pub open spec fn is_hex(c: char) -> bool {
    ('0' <= c && c <= '9') || ('a' <= c && c <= 'f') || ('A' <= c && c <= 'F')
}

/// The leading hexadecimal digits of `s`.
pub open spec fn hex_prefix(s: Seq<char>) -> Seq<char>
    decreases s.len(),
{
    if s.len() > 0 && is_hex(s[0]) { seq![s[0]] + hex_prefix(s.drop_first()) } else { Seq::empty() }
}

/// What follows the last `c` in `s` (all of `s` when there is none).
pub open spec fn after_last(s: Seq<char>, c: char) -> Seq<char>
    decreases s.len(),
{
    if s.len() == 0 {
        s
    } else if s.last() == c {
        Seq::empty()
    } else {
        after_last(s.drop_last(), c).push(s.last())
    }
}

/// The id after the first `/embed/`: its leading 24 hexadecimal digits,
/// when there are that many.
pub open spec fn hex_embed_id(u: Seq<char>) -> Option<Seq<char>> {
    match find_sub(u, "/embed/"@) {
        Some(pos) => {
            let id = hex_prefix(u.skip(pos + 7));
            if id.len() >= 24 { Some(id.take(24)) } else { None }
        },
        None => None,
    }
}

/// The id of a tau-video embed address with a query: the last path piece
/// before the `?`, when it is 24 bytes long.
pub open spec fn tail_embed_id(u: Seq<char>) -> Option<Seq<char>> {
    match find_char(u, '?') {
        Some(q) => if contains_sub(u, "tau-video"@) && contains_sub(u, "/embed/"@) {
            let id = after_last(u.take(q), '/');
            if utf8_len(id) == 24 { Some(id) } else { None }
        } else {
            None
        },
        None => None,
    }
}

/// The tau-video embed id and `vid` read from the address the best-video
/// request ended at: 24 hexadecimal digits after `/embed/`, or (for a
/// tau-video embed address with a query) the 24-byte last path piece; the
/// `vid` is what follows `vid=`.
pub open spec fn embed_from_url_spec(u: Seq<char>) -> Option<(Seq<char>, Seq<char>)> {
    let vid = match after_sub(u, "vid="@) {
        Some(v) => v,
        None => Seq::empty(),
    };
    match hex_embed_id(u) {
        Some(id) => Some((id, vid)),
        None => match tail_embed_id(u) {
            Some(id) => Some((id, vid)),
            None => None,
        },
    }
}

fn hex_embed_id_vec(u: &Vec<char>) -> (r: Option<Vec<char>>)
    ensures
        match r {
            Some(v) => hex_embed_id(u@) == Some(v@),
            None => hex_embed_id(u@) is None,
        },
{
    let emb = chars_of("/embed/");
    proof {
        reveal_strlit("/embed/");
        lemma_find_sub(u@, emb@);
    }
    assert(u@.skip(0) =~= u@);
    match find_sub_in(u, 0, &emb) {
        Some(pos) => {
            assert(emb@.len() == 7);
            assert(pos + 7 <= u.len());
            let mut k = pos + 7;
            assert(u@.subrange(pos + 7, k as int) =~= Seq::<char>::empty());
            while k < u.len() && is_hex_char(u[k])
                invariant
                    pos + 7 <= k <= u.len(),
                    hex_prefix(u@.skip(pos + 7)) == u@.subrange(pos + 7, k as int) + hex_prefix(u@.skip(k as int)),
                decreases u.len() - k,
            {
                assert(u@.skip(k as int).drop_first() =~= u@.skip(k + 1));
                assert(u@.subrange(pos + 7, k as int) + seq![u@[k as int]] =~= u@.subrange(pos + 7, k + 1));
                k = k + 1;
            }
            assert(hex_prefix(u@.skip(k as int)) =~= Seq::<char>::empty());
            assert(hex_prefix(u@.skip(pos + 7)) =~= u@.subrange(pos + 7, k as int));
            if k - (pos + 7) >= 24 {
                let id = sub_vec(u, pos + 7, pos + 31);
                assert(id@ =~= hex_prefix(u@.skip(pos + 7)).take(24));
                Some(id)
            } else {
                None
            }
        },
        None => None,
    }
}

fn tail_embed_id_vec(u: &Vec<char>) -> (r: Option<Vec<char>>)
    ensures
        match r {
            Some(v) => tail_embed_id(u@) == Some(v@),
            None => tail_embed_id(u@) is None,
        },
{
    proof { lemma_find_char(u@, '?'); }
    assert(u@.subrange(0, u@.len() as int) =~= u@);
    match find_char_in(u, 0, u.len(), '?') {
        Some(q) => {
            if contains_str(u, "tau-video") && contains_str(u, "/embed/") {
                let mut a = q;
                assert(u@.subrange(a as int, q as int) =~= Seq::<char>::empty());
                assert(after_last(u@.take(q as int), '/') =~= after_last(u@.take(a as int), '/') + u@.subrange(a as int, q as int));
                while a > 0 && u[a - 1] != '/'
                    invariant
                        a <= q < u.len(),
                        after_last(u@.take(q as int), '/') == after_last(u@.take(a as int), '/') + u@.subrange(a as int, q as int),
                    decreases a,
                {
                    assert(u@.take(a as int).drop_last() =~= u@.take(a - 1));
                    assert(seq![u@[a - 1]] + u@.subrange(a as int, q as int) =~= u@.subrange(a - 1, q as int));
                    assert(after_last(u@.take(a as int), '/') =~= after_last(u@.take(a - 1), '/').push(u@[a - 1]));
                    a = a - 1;
                }
                assert(after_last(u@.take(a as int), '/') =~= Seq::<char>::empty()) by {
                    if a > 0 {
                        assert(u@.take(a as int).last() == '/');
                    }
                }
                assert(after_last(u@.take(q as int), '/') =~= u@.subrange(a as int, q as int));
                if utf8_len_capped(u, a, q, 25) == 24 {
                    Some(sub_vec(u, a, q))
                } else {
                    None
                }
            } else {
                None
            }
        },
        None => None,
    }
}

/// Reads the embed id and `vid` out of the address the best-video request
/// ended at; the error names the address.
pub fn embed_from_final_url(final_url: &str) -> (r: Result<(String, String), String>)
    ensures
        match r {
            Ok((a, b)) => embed_from_url_spec(final_url@) == Some((a@, b@)),
            Err(e) => embed_from_url_spec(final_url@) is None && e@ == "embed bulunamadı: "@ + final_url@,
        },
{
    let u = chars_of(final_url);
    assert(u@.skip(0) =~= u@);
    let vkey = chars_of("vid=");
    proof { reveal_strlit("vid="); }
    let vid = match after_sub_in(&u, 0, &vkey) {
        Some(v) => v,
        None => Vec::new(),
    };
    if let Some(id) = hex_embed_id_vec(&u) {
        return Ok((string_from(&id), string_from(&vid)));
    }
    if let Some(id) = tail_embed_id_vec(&u) {
        return Ok((string_from(&id), string_from(&vid)));
    }
    let mut m = chars_of("embed bulunamadı: ");
    extend_chars(&mut m, &u);
    Err(string_from(&m))
}

fn is_hex_char(c: char) -> (r: bool)
    ensures
        r == is_hex(c),
{
    ('0' <= c && c <= '9') || ('a' <= c && c <= 'f') || ('A' <= c && c <= 'F')
}

} // verus!
