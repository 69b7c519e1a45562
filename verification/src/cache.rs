//! The answer and cover caches: file names, the record format of a cached
//! answer, and when a cached entry may still be used.

use vstd::prelude::*;
use vstd::utf8::encode_utf8;
use crate::embeds::after_last;
use crate::text::{
    chars_of, decimal, extend_chars, extend_str, find_char, find_char_in, lemma_find_char, parse_u64_in,
    owned, parse_u64_spec, string_from, sub_vec, trim, trim_bounds, u64_decimal, utf8_len, utf8_len_capped,
};

verus! {

/// How long a cached API answer is fresh: 3 hours, in seconds.
pub const API_TTL_SECS: u64 = 10800;

/// How long a cached cover is fresh: 7 days, in seconds.
pub const IMG_TTL_SECS: u64 = 604800;

/// Version of the answer cache layout; a cache written under another
/// version is thrown away.
pub const CACHE_VERSION: &'static str = "2";

/// What `char::is_alphanumeric` says of a character (Unicode letters and
/// numbers).
pub uninterp spec fn alphanumeric(c: char) -> bool;

/// std's `char::is_alphanumeric`.
#[verifier::external_body]
fn is_alphanumeric(c: char) -> (r: bool)
    ensures
        r == alphanumeric(c),
{
    c.is_alphanumeric()
}

/// A character as it may stand in a cache file name (others become `_`).
pub open spec fn name_char(c: char) -> char {
    if alphanumeric(c) || c == '-' || c == '_' { c } else { '_' }
}

/// The file a cached answer with key `key` is kept in.
pub open spec fn answer_file_spec(key: Seq<char>) -> Seq<char> {
    key.map_values(|c: char| name_char(c)) + ".json"@
}

/// The file name of the cached answer for `key`.
pub fn answer_file_name(key: &str) -> (r: String)
    ensures
        r@ == answer_file_spec(key@),
{
    let k = chars_of(key);
    let mut out: Vec<char> = Vec::new();
    let mut i: usize = 0;
    while i < k.len()
        invariant
            i <= k.len(),
            out@ == k@.take(i as int).map_values(|c: char| name_char(c)),
        decreases k.len() - i,
    {
        let c = k[i];
        let d = if is_alphanumeric(c) || c == '-' || c == '_' { c } else { '_' };
        out.push(d);
        assert(out@ =~= k@.take(i as int + 1).map_values(|c: char| name_char(c)));
        i = i + 1;
    }
    assert(k@.take(k.len() as int) =~= k@);
    extend_str(&mut out, ".json");
    string_from(&out)
}

/// 64-bit FNV-1a hash of a byte string.
pub open spec fn fnv1a(b: Seq<u8>) -> u64
    decreases b.len(),
{
    if b.len() == 0 {
        0xcbf2_9ce4_8422_2325
    } else {
        (fnv1a(b.drop_last()) ^ (b.last() as u64)).wrapping_mul(0x100_0000_01b3)
    }
}

/// Lower-case hexadecimal digit.
pub open spec fn hex_lower_digit(d: nat) -> char {
    if d < 10 { ((d + 0x30) as u8) as char } else { ((d - 10 + 0x61) as u8) as char }
}

/// Lower-case hexadecimal text of a number, without leading zeros (`{:x}`).
pub open spec fn hex_lower(n: nat) -> Seq<char>
    decreases n,
{
    if n < 16 { seq![hex_lower_digit(n)] } else { hex_lower(n / 16).push(hex_lower_digit(n % 16)) }
}

fn hex_digit_char(d: u64) -> (r: char)
    requires
        d < 16,
    ensures
        r == hex_lower_digit(d as nat),
{
    if d < 10 {
        ((d as u8) + 0x30) as char
    } else {
        ((d as u8) - 10 + 0x61) as char
    }
}

fn u64_hex(n: u64) -> (r: Vec<char>)
    ensures
        r@ == hex_lower(n as nat),
    decreases n,
{
    if n < 16 {
        let mut v: Vec<char> = Vec::new();
        v.push(hex_digit_char(n));
        v
    } else {
        let mut v = u64_hex(n / 16);
        v.push(hex_digit_char(n % 16));
        v
    }
}

/// The extension a cover keeps: the last `.` piece of its address before
/// any `?`, when it is at most 5 bytes of letters and digits; else `bin`.
pub open spec fn cover_ext(url: Seq<char>) -> Seq<char> {
    let base = match find_char(url, '?') {
        Some(i) => url.take(i),
        None => url,
    };
    let e = after_last(base, '.');
    if ext_ok(e) { e } else { "bin"@ }
}

/// An extension is kept when it is at most 5 bytes of letters and digits.
pub open spec fn ext_ok(e: Seq<char>) -> bool {
    utf8_len(e) <= 5 && forall|k: int| 0 <= k < e.len() ==> alphanumeric(#[trigger] e[k])
}

/// The file a cover fetched from `url` is kept in: the FNV-1a hash of the
/// address in hexadecimal, a dot and the extension.
pub open spec fn cover_file_spec(url: Seq<char>, bytes: Seq<u8>) -> Seq<char> {
    hex_lower(fnv1a(bytes) as nat) + "."@ + cover_ext(url)
}

fn cover_ext_vec(u: &Vec<char>) -> (r: Vec<char>)
    ensures
        r@ == cover_ext(u@),
{
    proof { lemma_find_char(u@, '?'); }
    assert(u@.subrange(0, u@.len() as int) =~= u@);
    let end = match find_char_in(u, 0, u.len(), '?') {
        Some(i) => i,
        None => u.len(),
    };
    let ghost base = u@.take(end as int);
    assert(base == match find_char(u@, '?') { Some(i) => u@.take(i), None => u@ });
    let mut a = end;
    assert(u@.subrange(a as int, end as int) =~= Seq::<char>::empty());
    assert(after_last(base, '.') =~= after_last(u@.take(a as int), '.') + u@.subrange(a as int, end as int));
    while a > 0 && u[a - 1] != '.'
        invariant
            a <= end <= u.len(),
            base == u@.take(end as int),
            after_last(base, '.') == after_last(u@.take(a as int), '.') + u@.subrange(a as int, end as int),
        decreases a,
    {
        assert(u@.take(a as int).drop_last() =~= u@.take(a - 1));
        assert(seq![u@[a - 1]] + u@.subrange(a as int, end as int) =~= u@.subrange(a - 1, end as int));
        assert(after_last(u@.take(a as int), '.') =~= after_last(u@.take(a - 1), '.').push(u@[a - 1]));
        a = a - 1;
    }
    assert(after_last(u@.take(a as int), '.') =~= Seq::<char>::empty()) by {
        if a > 0 {
            assert(u@.take(a as int).last() == '.');
        }
    }
    let ghost e = u@.subrange(a as int, end as int);
    assert(after_last(base, '.') =~= e);
    assert(cover_ext(u@) == if ext_ok(e) { e } else { "bin"@ });
    let mut ok = utf8_len_capped(u, a, end, 6) <= 5;
    let mut k = a;
    while ok && k < end
        invariant
            a <= k <= end <= u.len(),
            e == u@.subrange(a as int, end as int),
            cover_ext(u@) == if ext_ok(e) { e } else { "bin"@ },
            ok ==> utf8_len(e) <= 5,
            ok ==> forall|j: int| 0 <= j < k - a ==> alphanumeric(#[trigger] e[j]),
            !ok ==> !ext_ok(e),
        decreases end - k,
    {
        if !is_alphanumeric(u[k]) {
            assert(e[k - a] == u@[k as int]);
            ok = false;
        }
        k = k + 1;
    }
    if ok {
        assert(k == end);
        assert(utf8_len(e) <= 5);
        assert(forall|j: int| 0 <= j < e.len() ==> alphanumeric(#[trigger] e[j]));
        assert(cover_ext(u@) == e);
        sub_vec(u, a, end)
    } else {
        assert(cover_ext(u@) == "bin"@);
        chars_of("bin")
    }
}

fn fnv_hash(bytes: &[u8]) -> (h: u64)
    ensures
        h == fnv1a(bytes@),
{
    let mut h: u64 = 0xcbf2_9ce4_8422_2325;
    let mut i: usize = 0;
    while i < bytes.len()
        invariant
            i <= bytes@.len(),
            h == fnv1a(bytes@.take(i as int)),
        decreases bytes.len() - i,
    {
        let ghost pre = bytes@.take(i as int);
        assert(bytes@.take(i as int + 1).drop_last() =~= pre);
        let x = h ^ (bytes[i] as u64);
        h = x.wrapping_mul(0x100_0000_01b3);
        i = i + 1;
    }
    assert(bytes@.take(bytes@.len() as int) =~= bytes@);
    h
}

/// The file name of the cached cover for `url`.
pub fn cover_file_name(url: &str) -> (r: String)
    ensures
        r@ == cover_file_spec(url@, encode_utf8(url@)),
{
    let bytes = url.as_bytes();
    assert(bytes@ == encode_utf8(url@));
    let h = fnv_hash(bytes);
    let mut out = u64_hex(h);
    out.push('.');
    let u = chars_of(url);
    let e = cover_ext_vec(&u);
    extend_chars(&mut out, &e);
    proof { reveal_strlit("."); }
    assert(out@ =~= cover_file_spec(url@, encode_utf8(url@)));
    string_from(&out)
}

/// A cached answer as written: the time it was fetched (seconds since the
/// epoch) on the first line, the answer after it.
pub open spec fn record_spec(ts: u64, body: Seq<char>) -> Seq<char> {
    decimal(ts as nat) + "\n"@ + body
}

/// Writes a cached answer record.
pub fn cache_record(ts: u64, body: &str) -> (r: String)
    ensures
        r@ == record_spec(ts, body@),
{
    let mut out = u64_decimal(ts);
    extend_str(&mut out, "\n");
    extend_str(&mut out, body);
    string_from(&out)
}

/// Reads a cached answer record: the time on the first line (trimmed) and
/// the text after it; `None` when there is no second line or the time is
/// not a number.
pub open spec fn parse_record_spec(text: Seq<char>) -> Option<(u64, Seq<char>)> {
    match find_char(text, '\n') {
        Some(i) => match parse_u64_spec(trim(text.take(i))) {
            Some(ts) => Some((ts, text.skip(i + 1))),
            None => None,
        },
        None => None,
    }
}

/// Splits a cached answer record into its time and text.
pub fn parse_cache_record(text: &str) -> (r: Option<(u64, String)>)
    ensures
        match r {
            Some((ts, body)) => parse_record_spec(text@) == Some((ts, body@)),
            None => parse_record_spec(text@) is None,
        },
{
    let t = chars_of(text);
    proof { lemma_find_char(t@, '\n'); }
    assert(t@.subrange(0, t@.len() as int) =~= t@);
    match find_char_in(&t, 0, t.len(), '\n') {
        None => None,
        Some(i) => {
            let (a, b) = trim_bounds(&t, 0, i);
            assert(t@.subrange(0, i as int) =~= t@.take(i as int));
            match parse_u64_in(&t, a, b) {
                Some(ts) => {
                    let body = sub_vec(&t, i + 1, t.len());
                    assert(body@ =~= t@.skip(i + 1));
                    Some((ts, string_from(&body)))
                },
                None => None,
            }
        },
    }
}

/// Whether an entry stored at `t` is still fresh at `now` (a time in the
/// future counts as age 0).
pub open spec fn fresh_spec(now: u64, t: u64, ttl: u64) -> bool {
    (if now >= t { now - t } else { 0 }) < ttl
}

/// Whether a cache entry stored at `t` may still be used at `now`.
pub fn is_fresh(now: u64, t: u64, ttl: u64) -> (r: bool)
    ensures
        r == fresh_spec(now, t, ttl),
{
    now.saturating_sub(t) < ttl
}

/// Where a cached lookup is answered from.
#[derive(Clone, Copy, Debug, PartialEq, Eq, Structural)]
pub enum CacheStep {
    /// The copy in memory is fresh.
    Memory,
    /// The copy on disk is fresh.
    Disk,
    /// The copy on disk is stale: answer with it at once and ask the
    /// network in the background (stale-while-revalidate).
    Revalidate,
    /// Nothing usable is cached: ask the network.
    Fetch,
}

/// The step of an answer lookup, given the times of the memory and disk
/// copies (when there are any).
pub open spec fn answer_step_spec(now: u64, ttl: u64, mem: Option<u64>, disk: Option<u64>) -> CacheStep {
    if mem matches Some(t) && fresh_spec(now, t, ttl) {
        CacheStep::Memory
    } else {
        match disk {
            Some(t) => if fresh_spec(now, t, ttl) { CacheStep::Disk } else { CacheStep::Revalidate },
            None => CacheStep::Fetch,
        }
    }
}

/// Decides where an API answer comes from.
pub fn answer_step(now: u64, ttl: u64, mem: Option<u64>, disk: Option<u64>) -> (r: CacheStep)
    ensures
        r == answer_step_spec(now, ttl, mem, disk),
{
    if let Some(t) = mem {
        if is_fresh(now, t, ttl) {
            return CacheStep::Memory;
        }
    }
    match disk {
        Some(t) => if is_fresh(now, t, ttl) { CacheStep::Disk } else { CacheStep::Revalidate },
        None => CacheStep::Fetch,
    }
}

/// What an answer lookup hands back at once.
pub enum Lookup {
    /// The fresh copy in memory.
    Memory(String),
    /// The fresh copy on disk, with its time; it is kept in memory too.
    Disk(u64, String),
    /// The stale copy on disk, answered at once; the network is asked in
    /// the background and its reply goes through `after_reply`.
    Stale(String),
    /// Nothing usable is cached: the network is asked now and its reply
    /// goes through `after_reply`.
    Fetch,
}

/// The time of a cached copy.
pub open spec fn copy_time(c: Option<(u64, String)>) -> Option<u64> {
    match c {
        Some((t, _)) => Some(t),
        None => None,
    }
}

/// Looks an answer up in the memory and disk copies (time and text): a
/// fresh copy answers; a stale disk copy answers at once and is refreshed
/// in the background, even when the network then fails.
pub fn lookup(now: u64, ttl: u64, mem: Option<(u64, String)>, disk: Option<(u64, String)>) -> (r: Lookup)
    ensures
        match answer_step_spec(now, ttl, copy_time(mem), copy_time(disk)) {
            CacheStep::Memory => r matches Lookup::Memory(b) && mem matches Some((_, m)) && b@ == m@,
            CacheStep::Disk => r matches Lookup::Disk(t, b) && disk matches Some((dt, d)) && t == dt && b@ == d@,
            CacheStep::Revalidate => r matches Lookup::Stale(b) && disk matches Some((_, d)) && b@ == d@,
            CacheStep::Fetch => r is Fetch,
        },
{
    let step = answer_step(now, ttl, match &mem { Some((t, _)) => Some(*t), None => None }, match &disk { Some((t, _)) => Some(*t), None => None });
    match step {
        CacheStep::Memory => match mem {
            Some((_, b)) => Lookup::Memory(b),
            None => Lookup::Fetch,
        },
        CacheStep::Disk => match disk {
            Some((t, b)) => Lookup::Disk(t, b),
            None => Lookup::Fetch,
        },
        CacheStep::Revalidate => match disk {
            Some((_, b)) => Lookup::Stale(b),
            None => Lookup::Fetch,
        },
        CacheStep::Fetch => Lookup::Fetch,
    }
}

/// What the cache does with a network reply at `now`.
pub struct Reply {
    /// What the lookup answers (when it waited for the network).
    pub answer: Result<String, String>,
    /// What the memory cache keeps under the key, with its time.
    pub memory: Option<(u64, String)>,
    /// What is written to the disk cache, with its time.
    pub disk: Option<(u64, String)>,
}

/// Takes a network reply at `now`, with the stale copy when there was one:
/// a fresh answer is kept in memory and on disk; when the network failed,
/// the stale copy answers and is kept in memory (stamped `now`), and the
/// disk is left alone; with no stale copy the error answers.
pub fn after_reply(now: u64, reply: Result<String, String>, stale: Option<String>) -> (r: Reply)
    ensures
        match reply {
            Ok(b) => {
                &&& r.answer matches Ok(a) && a@ == b@
                &&& r.memory matches Some((t, m)) && t == now && m@ == b@
                &&& r.disk matches Some((t2, d)) && t2 == now && d@ == b@
            },
            Err(e) => match stale {
                Some(s) => {
                    &&& r.answer matches Ok(a) && a@ == s@
                    &&& r.memory matches Some((t, m)) && t == now && m@ == s@
                    &&& r.disk is None
                },
                None => r.answer matches Err(x) && x@ == e@ && r.memory is None && r.disk is None,
            },
        },
{
    match reply {
        Ok(b) => {
            let m = owned(b.as_str());
            let d = owned(b.as_str());
            Reply { answer: Ok(b), memory: Some((now, m)), disk: Some((now, d)) }
        },
        Err(e) => match stale {
            Some(s) => {
                let m = owned(s.as_str());
                Reply { answer: Ok(s), memory: Some((now, m)), disk: None }
            },
            None => Reply { answer: Err(e), memory: None, disk: None },
        },
    }
}

/// The step of a cover lookup: like an answer lookup, except that a stale
/// copy on disk is fetched again without a fallback.
pub open spec fn cover_step_spec(now: u64, ttl: u64, mem: Option<u64>, disk: Option<u64>) -> CacheStep {
    if mem matches Some(t) && fresh_spec(now, t, ttl) {
        CacheStep::Memory
    } else {
        match disk {
            Some(t) => if fresh_spec(now, t, ttl) { CacheStep::Disk } else { CacheStep::Fetch },
            None => CacheStep::Fetch,
        }
    }
}

/// Decides where a cover comes from.
pub fn cover_step(now: u64, ttl: u64, mem: Option<u64>, disk: Option<u64>) -> (r: CacheStep)
    ensures
        r == cover_step_spec(now, ttl, mem, disk),
{
    if let Some(t) = mem {
        if is_fresh(now, t, ttl) {
            return CacheStep::Memory;
        }
    }
    match disk {
        Some(t) => if is_fresh(now, t, ttl) { CacheStep::Disk } else { CacheStep::Fetch },
        None => CacheStep::Fetch,
    }
}

/// A record read back gives the time and text that were written.
pub proof fn lemma_record_round_trip(ts: u64, body: Seq<char>)
    ensures
        parse_record_spec(record_spec(ts, body)) == Some((ts, body)),
{
    let d = decimal(ts as nat);
    crate::text::lemma_decimal_digits(ts as nat);
    reveal_strlit("\n");
    let s = record_spec(ts, body);
    assert(s =~= d + seq!['\n'] + body);
    lemma_find_char(s, '\n');
    assert(s[d.len() as int] == '\n');
    match find_char(s, '\n') {
        Some(i) => {
            if i < d.len() {
                assert(s[i] == d[i]);
                assert(crate::text::is_digit(d[i]));
            } else if i > d.len() {
                assert(s[d.len() as int] != '\n');
            }
        },
        None => {
            assert(s.contains('\n'));
        },
    }
    assert(s.take(d.len() as int) =~= d);
    assert(s.skip(d.len() as int + 1) =~= body);
    assert(crate::text::is_digit(d[0]));
    assert(crate::text::is_digit(d.last()));
    assert(crate::text::trim_start(d) == d);
    assert(trim(d) == d);
    assert(crate::text::unsigned_digits(d) == d);
}

} // verus!
