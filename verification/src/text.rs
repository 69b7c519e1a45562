//! Character-level text helpers shared by the rest of the library: building
//! strings, decimal rendering and parsing, whitespace trimming and searching.

use vstd::prelude::*;

verus! {

// ---------------------------------------------------------------------------
// Strings and character vectors
// ---------------------------------------------------------------------------

/// Appends one character to a `String` (std's `String::push`).
#[verifier::external_body]
pub(crate) fn push_char(s: &mut String, c: char)
    ensures
        final(s)@ == old(s)@.push(c),
{
    s.push(c);
}

/// A copy of an optional string.
pub fn clone_opt_string(o: &Option<String>) -> (r: Option<String>)
    ensures
        r == *o,
{
    match o {
        Some(s) => Some(s.clone()),
        None => None,
    }
}

/// The characters of a string slice, in order.
pub fn chars_of(s: &str) -> (r: Vec<char>)
    ensures
        r@ == s@,
{
    let mut out: Vec<char> = Vec::new();
    for c in it: s.chars()
        invariant
            it.seq() == s@,
            out@ == s@.take(it.index() as int),
    {
        assert(s@.take(it.index() as int).push(c) =~= s@.take(it.index() as int + 1));
        out.push(c);
    }
    assert(s@.take(s@.len() as int) =~= s@);
    out
}

/// Builds a `String` holding exactly the given characters.
pub fn string_from(v: &Vec<char>) -> (r: String)
    ensures
        r@ == v@,
{
    let mut s = String::new();
    let mut i: usize = 0;
    while i < v.len()
        invariant
            i <= v.len(),
            s@ == v@.take(i as int),
        decreases v.len() - i,
    {
        push_char(&mut s, v[i]);
        assert(v@.take(i as int).push(v@[i as int]) =~= v@.take(i as int + 1));
        i = i + 1;
    }
    assert(v@.take(v.len() as int) =~= v@);
    s
}

/// A `String` holding the characters of a string slice.
pub fn owned(s: &str) -> (r: String)
    ensures
        r@ == s@,
{
    let mut out = String::new();
    out.append(s);
    out
}

/// Appends every character of `t` to `v`.
pub fn extend_chars(v: &mut Vec<char>, t: &Vec<char>)
    ensures
        final(v)@ == old(v)@ + t@,
{
    let mut i: usize = 0;
    while i < t.len()
        invariant
            i <= t.len(),
            v@ == old(v)@ + t@.take(i as int),
        decreases t.len() - i,
    {
        v.push(t[i]);
        assert(old(v)@ + t@.take(i as int + 1) =~= (old(v)@ + t@.take(i as int)).push(t@[i as int]));
        i = i + 1;
    }
    assert(t@.take(t.len() as int) =~= t@);
}

/// Appends every character of the string slice `t` to `v`.
pub fn extend_str(v: &mut Vec<char>, t: &str)
    ensures
        final(v)@ == old(v)@ + t@,
{
    let tc = chars_of(t);
    extend_chars(v, &tc);
}

/// Whether two character vectors hold the same characters.
pub fn chars_eq(a: &Vec<char>, b: &Vec<char>) -> (r: bool)
    ensures
        r == (a@ == b@),
{
    if a.len() != b.len() {
        return false;
    }
    let mut i: usize = 0;
    while i < a.len()
        invariant
            a.len() == b.len(),
            i <= a.len(),
            forall|j: int| 0 <= j < i ==> a@[j] == b@[j],
        decreases a.len() - i,
    {
        if a[i] != b[i] {
            return false;
        }
        i = i + 1;
    }
    assert(a@ =~= b@);
    true
}

/// Whether two string slices hold the same characters.
pub fn str_eq(a: &str, b: &str) -> (r: bool)
    ensures
        r == (a@ == b@),
{
    let av = chars_of(a);
    let bv = chars_of(b);
    chars_eq(&av, &bv)
}

/// Whether `p` is a prefix of `s`.
pub open spec fn starts_with(s: Seq<char>, p: Seq<char>) -> bool {
    p.len() <= s.len() && s.take(p.len() as int) == p
}

/// Whether `s[lo..hi]` starts with `p`.
pub fn range_starts_with(s: &Vec<char>, lo: usize, hi: usize, p: &Vec<char>) -> (r: bool)
    requires
        lo <= hi <= s.len(),
    ensures
        r == starts_with(s@.subrange(lo as int, hi as int), p@),
{
    if p.len() > hi - lo {
        return false;
    }
    let mut i: usize = 0;
    while i < p.len()
        invariant
            lo <= hi <= s.len(),
            p.len() <= hi - lo,
            i <= p.len(),
            forall|j: int| 0 <= j < i ==> s@[lo + j] == p@[j],
        decreases p.len() - i,
    {
        if s[lo + i] != p[i] {
            assert(s@.subrange(lo as int, hi as int).take(p.len() as int)[i as int] != p@[i as int]);
            return false;
        }
        i = i + 1;
    }
    assert(s@.subrange(lo as int, hi as int).take(p.len() as int) =~= p@);
    true
}

/// Index of the first occurrence of `c` in `s`, if any.
pub open spec fn find_char(s: Seq<char>, c: char) -> Option<int>
    decreases s.len(),
{
    if s.len() == 0 {
        None
    } else if s[0] == c {
        Some(0)
    } else {
        match find_char(s.drop_first(), c) {
            Some(i) => Some(i + 1),
            None => None,
        }
    }
}

pub proof fn lemma_find_char(s: Seq<char>, c: char)
    ensures
        find_char(s, c) is None <==> !s.contains(c),
        find_char(s, c) matches Some(i) ==> 0 <= i < s.len() && s[i] == c && forall|k: int|
            0 <= k < i ==> #[trigger] s[k] != c,
    decreases s.len(),
{
    if s.len() > 0 {
        lemma_find_char(s.drop_first(), c);
        if s[0] != c {
            if s.contains(c) {
                let k = choose|k: int| 0 <= k < s.len() && s[k] == c;
                assert(s.drop_first()[k - 1] == c);
            }
            if let Some(i) = find_char(s.drop_first(), c) {
                assert forall|k: int| 0 <= k < i + 1 implies #[trigger] s[k] != c by {
                    if k > 0 {
                        assert(s[k] == s.drop_first()[k - 1]);
                    }
                }
            }
        }
    }
}

/// First index `i` in `lo..hi` with `s[i] == c`, searched left to right.
pub fn find_char_in(s: &Vec<char>, lo: usize, hi: usize, c: char) -> (r: Option<usize>)
    requires
        lo <= hi <= s.len(),
    ensures
        match r {
            Some(i) => lo <= i < hi && find_char(s@.subrange(lo as int, hi as int), c) == Some(i - lo),
            None => find_char(s@.subrange(lo as int, hi as int), c) is None,
        },
{
    let ghost sub = s@.subrange(lo as int, hi as int);
    let mut i = lo;
    while i < hi
        invariant
            lo <= i <= hi <= s.len(),
            sub == s@.subrange(lo as int, hi as int),
            forall|j: int| lo <= j < i ==> s@[j] != c,
        decreases hi - i,
    {
        if s[i] == c {
            proof {
                lemma_find_char(sub, c);
                let k = i - lo;
                assert(sub[k] == c);
                if let Some(f) = find_char(sub, c) {
                    if f < k {
                        assert(sub[f] == s@[lo + f]);
                    } else if f > k {
                        assert(sub[k] == c);
                    }
                }
            }
            return Some(i);
        }
        i = i + 1;
    }
    proof {
        lemma_find_char(sub, c);
        if sub.contains(c) {
            let k = choose|k: int| 0 <= k < sub.len() && sub[k] == c;
            assert(s@[lo + k] == c);
        }
    }
    None
}

/// Whether `c` occurs in `s[lo..hi]`.
pub fn contains_char_in(s: &Vec<char>, lo: usize, hi: usize, c: char) -> (r: bool)
    requires
        lo <= hi <= s.len(),
    ensures
        r == s@.subrange(lo as int, hi as int).contains(c),
{
    let f = find_char_in(s, lo, hi, c);
    proof { lemma_find_char(s@.subrange(lo as int, hi as int), c); }
    f.is_some()
}

/// The pieces of `s` between occurrences of `c` (`str::split(c)`); an empty
/// string gives one empty piece.
pub open spec fn split_on(s: Seq<char>, c: char) -> Seq<Seq<char>>
    decreases s.len(),
{
    match find_char(s, c) {
        None => seq![s],
        Some(p) => if 0 <= p < s.len() {
            seq![s.take(p)] + split_on(s.skip(p + 1), c)
        } else {
            seq![s]
        },
    }
}

/// The pieces named by `bounds` in `s`.
pub open spec fn pieces(s: Seq<char>, bounds: Seq<(usize, usize)>) -> Seq<Seq<char>> {
    bounds.map_values(|b: (usize, usize)| s.subrange(b.0 as int, b.1 as int))
}

/// Bounds of the pieces of `s[lo..]` between occurrences of `c`.
pub fn split_bounds(s: &Vec<char>, lo: usize, c: char) -> (r: Vec<(usize, usize)>)
    requires
        lo <= s.len(),
    ensures
        pieces(s@, r@) == split_on(s@.subrange(lo as int, s@.len() as int), c),
        forall|i: int| 0 <= i < r@.len() ==> lo <= (#[trigger] r@[i]).0 <= r@[i].1 <= s.len(),
{
    let ghost whole = s@.subrange(lo as int, s@.len() as int);
    let mut out: Vec<(usize, usize)> = Vec::new();
    let ghost mut done: Seq<Seq<char>> = Seq::empty();
    let mut start = lo;
    loop
        invariant
            lo <= start <= s.len(),
            whole == s@.subrange(lo as int, s@.len() as int),
            split_on(whole, c) == done + split_on(s@.subrange(start as int, s@.len() as int), c),
            pieces(s@, out@) == done,
            forall|i: int| 0 <= i < out@.len() ==> lo <= (#[trigger] out@[i]).0 <= out@[i].1 <= s.len(),
        decreases s.len() - start,
    {
        let ghost rest = s@.subrange(start as int, s@.len() as int);
        proof { lemma_find_char(rest, c); }
        match find_char_in(s, start, s.len(), c) {
            None => {
                out.push((start, s.len()));
                proof {
                    assert(split_on(rest, c) == seq![rest]);
                    assert(pieces(s@, out@) =~= done.push(rest));
                    assert(split_on(whole, c) =~= done.push(rest));
                }
                return out;
            },
            Some(p) => {
                out.push((start, p));
                proof {
                    let q = p - start;
                    assert(rest.take(q) =~= s@.subrange(start as int, p as int));
                    assert(rest.skip(q + 1) =~= s@.subrange(p + 1, s@.len() as int));
                    assert(split_on(rest, c) == seq![rest.take(q)] + split_on(rest.skip(q + 1), c));
                    assert(pieces(s@, out@) =~= done.push(rest.take(q)));
                    done = done.push(rest.take(q));
                    assert(split_on(whole, c) =~= done + split_on(s@.subrange(p + 1, s@.len() as int), c));
                }
                start = p + 1;
            },
        }
    }
}

/// The characters `s[lo..hi]` as a new vector.
pub fn sub_vec(s: &Vec<char>, lo: usize, hi: usize) -> (r: Vec<char>)
    requires
        lo <= hi <= s.len(),
    ensures
        r@ == s@.subrange(lo as int, hi as int),
{
    let mut out: Vec<char> = Vec::new();
    let mut k = lo;
    while k < hi
        invariant
            lo <= k <= hi <= s.len(),
            out@ == s@.subrange(lo as int, k as int),
        decreases hi - k,
    {
        out.push(s[k]);
        assert(out@ =~= s@.subrange(lo as int, k + 1));
        k = k + 1;
    }
    out
}

/// Pieces joined with `sep` between them (`[..].join(sep)`).
pub open spec fn join(parts: Seq<Seq<char>>, sep: Seq<char>) -> Seq<char>
    decreases parts.len(),
{
    if parts.len() == 0 {
        Seq::empty()
    } else if parts.len() == 1 {
        parts[0]
    } else {
        join(parts.drop_last(), sep) + sep + parts.last()
    }
}

/// Joins character vectors with `sep` between them.
pub fn join_vecs(parts: &Vec<Vec<char>>, sep: &str) -> (r: Vec<char>)
    ensures
        r@ == join(parts@.map_values(|p: Vec<char>| p@), sep@),
{
    let ghost ps = parts@.map_values(|p: Vec<char>| p@);
    let mut out: Vec<char> = Vec::new();
    let mut i: usize = 0;
    while i < parts.len()
        invariant
            i <= parts.len(),
            ps == parts@.map_values(|p: Vec<char>| p@),
            out@ == join(ps.take(i as int), sep@),
        decreases parts.len() - i,
    {
        assert(ps.take(i as int + 1).drop_last() =~= ps.take(i as int));
        if i > 0 {
            extend_str(&mut out, sep);
        }
        extend_chars(&mut out, &parts[i]);
        proof {
            if i == 0 {
                assert(out@ =~= ps.take(1)[0]);
            }
        }
        i = i + 1;
    }
    assert(ps.take(parts.len() as int) =~= ps);
    out
}

// ---------------------------------------------------------------------------
// Whitespace
// ---------------------------------------------------------------------------

/// Unicode `White_Space` (the set `char::is_whitespace` accepts).
pub open spec fn is_whitespace(c: char) -> bool {
    ||| ('\u{9}' <= c && c <= '\u{d}')
    ||| c == ' '
    ||| c == '\u{85}'
    ||| c == '\u{a0}'
    ||| c == '\u{1680}'
    ||| ('\u{2000}' <= c && c <= '\u{200a}')
    ||| c == '\u{2028}'
    ||| c == '\u{2029}'
    ||| c == '\u{202f}'
    ||| c == '\u{205f}'
    ||| c == '\u{3000}'
}

pub fn is_whitespace_char(c: char) -> (r: bool)
    ensures
        r == is_whitespace(c),
{
    ('\u{9}' <= c && c <= '\u{d}') || c == ' ' || c == '\u{85}' || c == '\u{a0}' || c == '\u{1680}'
        || ('\u{2000}' <= c && c <= '\u{200a}') || c == '\u{2028}' || c == '\u{2029}' || c
        == '\u{202f}' || c == '\u{205f}' || c == '\u{3000}'
}

/// `s` without its leading whitespace.
pub open spec fn trim_start(s: Seq<char>) -> Seq<char>
    decreases s.len(),
{
    if s.len() > 0 && is_whitespace(s[0]) {
        trim_start(s.drop_first())
    } else {
        s
    }
}

/// `s` without its trailing whitespace.
pub open spec fn trim_end(s: Seq<char>) -> Seq<char>
    decreases s.len(),
{
    if s.len() > 0 && is_whitespace(s.last()) {
        trim_end(s.drop_last())
    } else {
        s
    }
}

/// `s` without leading and trailing whitespace (`str::trim`).
pub open spec fn trim(s: Seq<char>) -> Seq<char> {
    trim_end(trim_start(s))
}

/// Bounds `(a, b)` such that `s[a..b]` is `trim(s[lo..hi])`.
pub fn trim_bounds(s: &Vec<char>, lo: usize, hi: usize) -> (r: (usize, usize))
    requires
        lo <= hi <= s.len(),
    ensures
        lo <= r.0 <= r.1 <= hi,
        s@.subrange(r.0 as int, r.1 as int) == trim(s@.subrange(lo as int, hi as int)),
{
    let mut a = lo;
    while a < hi && is_whitespace_char(s[a])
        invariant
            lo <= a <= hi <= s.len(),
            trim_start(s@.subrange(lo as int, hi as int)) == trim_start(s@.subrange(a as int, hi as int)),
        decreases hi - a,
    {
        assert(s@.subrange(a as int, hi as int).drop_first() =~= s@.subrange(a + 1, hi as int));
        a = a + 1;
    }
    let mut b = hi;
    while b > a && is_whitespace_char(s[b - 1])
        invariant
            lo <= a <= b <= hi <= s.len(),
            trim_end(s@.subrange(a as int, hi as int)) == trim_end(s@.subrange(a as int, b as int)),
        decreases b - a,
    {
        assert(s@.subrange(a as int, b as int).drop_last() =~= s@.subrange(a as int, b - 1));
        b = b - 1;
    }
    (a, b)
}

// ---------------------------------------------------------------------------
// Decimal numbers
// ---------------------------------------------------------------------------

pub open spec fn is_digit(c: char) -> bool {
    '0' <= c && c <= '9'
}

pub open spec fn digit_value(c: char) -> nat {
    (c as int - '0' as int) as nat
}

pub open spec fn digit_char(d: nat) -> char {
    ((d % 10) + '0' as nat) as char
}

/// Whether every character of `s` is an ASCII digit.
pub open spec fn all_digits(s: Seq<char>) -> bool {
    forall|i: int| 0 <= i < s.len() ==> is_digit(#[trigger] s[i])
}

/// The number that a run of ASCII digits denotes.
pub open spec fn digits_value(s: Seq<char>) -> nat
    decreases s.len(),
{
    if s.len() == 0 {
        0
    } else {
        digits_value(s.drop_last()) * 10 + digit_value(s.last())
    }
}

/// Decimal rendering of a natural number, most significant digit first.
pub open spec fn decimal(n: nat) -> Seq<char>
    decreases n,
{
    if n < 10 {
        seq![digit_char(n)]
    } else {
        decimal(n / 10).push(digit_char(n % 10))
    }
}

/// The decimal rendering of `n` is a non-empty run of digits worth `n`.
pub proof fn lemma_decimal_digits(n: nat)
    ensures
        decimal(n).len() > 0,
        all_digits(decimal(n)),
        digits_value(decimal(n)) == n,
    decreases n,
{
    if n >= 10 {
        lemma_decimal_digits(n / 10);
        let d = decimal(n);
        assert(d.drop_last() =~= decimal(n / 10));
        assert(d.last() == digit_char(n % 10));
        assert(digit_value(digit_char(n % 10)) == n % 10);
        assert(digits_value(d) == digits_value(d.drop_last()) * 10 + digit_value(d.last()));
        assert(digits_value(d) == (n / 10) * 10 + n % 10);
        assert forall|i: int| 0 <= i < d.len() implies is_digit(#[trigger] d[i]) by {
            if i < d.len() - 1 {
                assert(d[i] == decimal(n / 10)[i]);
            }
        }
        assert(n == (n / 10) * 10 + n % 10);
    } else {
        let d = decimal(n);
        assert(d.drop_last() =~= Seq::<char>::empty());
        assert(digit_value(digit_char(n)) == n);
        assert(digits_value(d) == digits_value(d.drop_last()) * 10 + digit_value(d.last()));
    }
}

/// Decimal rendering of an integer (`-` before negatives), as `{}` prints it.
pub open spec fn int_decimal(i: int) -> Seq<char> {
    if i < 0 {
        seq!['-'] + decimal((-i) as nat)
    } else {
        decimal(i as nat)
    }
}

/// `decimal(n)` zero-padded on the left to at least two characters (`{:02}`).
pub open spec fn decimal2(n: nat) -> Seq<char> {
    if n < 10 {
        seq!['0', digit_char(n)]
    } else {
        decimal(n)
    }
}

/// The digits of `n`, most significant first.
pub fn u64_decimal(n: u64) -> (r: Vec<char>)
    ensures
        r@ == decimal(n as nat),
    decreases n,
{
    if n < 10 {
        let c = ((n as u32) + ('0' as u32)) as u8 as char;
        let mut v = Vec::new();
        v.push(c);
        proof {
            assert(v@ =~= seq![digit_char(n as nat)]);
        }
        v
    } else {
        let mut v = u64_decimal(n / 10);
        let d = n % 10;
        let c = ((d as u32) + ('0' as u32)) as u8 as char;
        v.push(c);
        v
    }
}

/// The decimal form of `n`, with `-` before negatives.
pub fn i64_decimal(n: i64) -> (r: Vec<char>)
    ensures
        r@ == int_decimal(n as int),
{
    if n < 0 {
        let m: u64 = if n == i64::MIN {
            9223372036854775808u64
        } else {
            (-n) as u64
        };
        let digits = u64_decimal(m);
        let mut v = Vec::new();
        v.push('-');
        extend_chars(&mut v, &digits);
        proof {
            assert(v@ =~= seq!['-'] + decimal((-(n as int)) as nat));
        }
        v
    } else {
        u64_decimal(n as u64)
    }
}

/// `decimal2(n)`: the digits of `n`, at least two of them (`{:02}`).
pub fn u64_decimal2(n: u64) -> (r: Vec<char>)
    ensures
        r@ == decimal2(n as nat),
{
    if n < 10 {
        let mut v = Vec::new();
        v.push('0');
        let c = ((n as u32) + ('0' as u32)) as u8 as char;
        v.push(c);
        proof {
            assert(v@ =~= seq!['0', digit_char(n as nat)]);
        }
        v
    } else {
        u64_decimal(n)
    }
}

/// The digits that follow an optional leading `+`.
pub open spec fn unsigned_digits(s: Seq<char>) -> Seq<char> {
    if s.len() > 0 && s[0] == '+' {
        s.drop_first()
    } else {
        s
    }
}

/// What `str::parse::<u64>` gives: an optional `+`, then at least one ASCII
/// digit and nothing else, with a value that fits.
pub open spec fn parse_u64_spec(s: Seq<char>) -> Option<u64> {
    let d = unsigned_digits(s);
    if d.len() > 0 && all_digits(d) && digits_value(d) <= u64::MAX {
        Some(digits_value(d) as u64)
    } else {
        None
    }
}

/// What `str::parse::<u32>` gives.
pub open spec fn parse_u32_spec(s: Seq<char>) -> Option<u32> {
    let d = unsigned_digits(s);
    if d.len() > 0 && all_digits(d) && digits_value(d) <= u32::MAX {
        Some(digits_value(d) as u32)
    } else {
        None
    }
}

/// What `str::parse::<i64>` gives: an optional `+` or `-`, then at least one
/// ASCII digit and nothing else, with a value in range.
pub open spec fn parse_i64_spec(s: Seq<char>) -> Option<i64> {
    if s.len() > 0 && s[0] == '-' {
        let d = s.drop_first();
        if d.len() > 0 && all_digits(d) && digits_value(d) <= 9223372036854775808 {
            Some((-(digits_value(d) as int)) as i64)
        } else {
            None
        }
    } else {
        let d = unsigned_digits(s);
        if d.len() > 0 && all_digits(d) && digits_value(d) <= i64::MAX {
            Some(digits_value(d) as i64)
        } else {
            None
        }
    }
}

proof fn lemma_digits_value_step(s: Seq<char>, i: int)
    requires
        0 <= i < s.len(),
    ensures
        digits_value(s.take(i + 1)) == digits_value(s.take(i)) * 10 + digit_value(s[i]),
{
    assert(s.take(i + 1).drop_last() =~= s.take(i));
}

proof fn lemma_digits_value_monotone(s: Seq<char>, i: int)
    requires
        0 <= i <= s.len(),
    ensures
        digits_value(s.take(i)) <= digits_value(s),
    decreases s.len() - i,
{
    if i < s.len() {
        lemma_digits_value_step(s, i);
        lemma_digits_value_monotone(s, i + 1);
    } else {
        assert(s.take(i) =~= s);
    }
}

/// Value of the ASCII digits `s[lo..hi]` when it is at most `limit`.
fn digits_upto(s: &Vec<char>, lo: usize, hi: usize, limit: u64) -> (r: Option<u64>)
    requires
        lo <= hi <= s.len(),
        limit >= 9,
    ensures
        ({
            let d = s@.subrange(lo as int, hi as int);
            match r {
                Some(v) => all_digits(d) && digits_value(d) <= limit && v == digits_value(d),
                None => !all_digits(d) || digits_value(d) > limit,
            }
        }),
{
    let ghost d = s@.subrange(lo as int, hi as int);
    let mut acc: u64 = 0;
    let mut i = lo;
    while i < hi
        invariant
            lo <= i <= hi <= s.len(),
            d == s@.subrange(lo as int, hi as int),
            all_digits(d.take(i - lo)),
            acc == digits_value(d.take(i - lo)),
            acc <= limit,
            limit >= 9,
        decreases hi - i,
    {
        let c = s[i];
        proof { lemma_digits_value_step(d, i - lo); }
        if !('0' <= c && c <= '9') {
            assert(d[i - lo] == c);
            return None;
        }
        let dv = (c as u32 - '0' as u32) as u64;
        assert(dv == digit_value(c));
        if acc > (limit - dv) / 10 {
            proof {
                assert(acc * 10 + dv > limit) by (nonlinear_arith)
                    requires acc > (limit - dv) / 10, dv <= 9, dv <= limit || acc > 0;
                if all_digits(d) {
                    lemma_digits_value_monotone(d, i - lo + 1);
                }
            }
            return None;
        }
        assert(acc * 10 + dv <= limit) by (nonlinear_arith)
            requires acc <= (limit - dv) / 10, dv <= limit;
        acc = acc * 10 + dv;
        assert forall|j: int| 0 <= j < i - lo + 1 implies is_digit(#[trigger] d.take(i - lo + 1)[j]) by {
            if j < i - lo {
                assert(d.take(i - lo + 1)[j] == d.take(i - lo)[j]);
            }
        }
        i = i + 1;
    }
    assert(d.take(hi - lo) =~= d);
    Some(acc)
}

/// `str::parse::<u64>` on `s[lo..hi]`.
pub fn parse_u64_in(s: &Vec<char>, lo: usize, hi: usize) -> (r: Option<u64>)
    requires
        lo <= hi <= s.len(),
    ensures
        r == parse_u64_spec(s@.subrange(lo as int, hi as int)),
{
    let ghost t = s@.subrange(lo as int, hi as int);
    let mut a = lo;
    if a < hi && s[a] == '+' {
        a = a + 1;
    }
    assert(unsigned_digits(t) =~= s@.subrange(a as int, hi as int));
    if a == hi {
        return None;
    }
    digits_upto(s, a, hi, u64::MAX)
}

/// `str::parse::<u32>` on `s[lo..hi]`.
pub fn parse_u32_in(s: &Vec<char>, lo: usize, hi: usize) -> (r: Option<u32>)
    requires
        lo <= hi <= s.len(),
    ensures
        r == parse_u32_spec(s@.subrange(lo as int, hi as int)),
{
    let ghost t = s@.subrange(lo as int, hi as int);
    let mut a = lo;
    if a < hi && s[a] == '+' {
        a = a + 1;
    }
    assert(unsigned_digits(t) =~= s@.subrange(a as int, hi as int));
    if a == hi {
        return None;
    }
    match digits_upto(s, a, hi, u32::MAX as u64) {
        Some(v) => Some(v as u32),
        None => None,
    }
}

/// `str::parse::<i64>` on `s[lo..hi]`.
pub fn parse_i64_in(s: &Vec<char>, lo: usize, hi: usize) -> (r: Option<i64>)
    requires
        lo <= hi <= s.len(),
    ensures
        r == parse_i64_spec(s@.subrange(lo as int, hi as int)),
{
    let ghost t = s@.subrange(lo as int, hi as int);
    if lo < hi && s[lo] == '-' {
        assert(t.drop_first() =~= s@.subrange(lo + 1, hi as int));
        if lo + 1 == hi {
            return None;
        }
        match digits_upto(s, lo + 1, hi, 9223372036854775808u64) {
            Some(v) => {
                if v == 9223372036854775808u64 {
                    Some(i64::MIN)
                } else {
                    Some(-(v as i64))
                }
            },
            None => None,
        }
    } else {
        let mut a = lo;
        if a < hi && s[a] == '+' {
            a = a + 1;
        }
        assert(unsigned_digits(t) =~= s@.subrange(a as int, hi as int));
        if a == hi {
            return None;
        }
        match digits_upto(s, a, hi, i64::MAX as u64) {
            Some(v) => Some(v as i64),
            None => None,
        }
    }
}

// ---------------------------------------------------------------------------
// Character replacement
// ---------------------------------------------------------------------------

/// `s` with every `c` replaced by `by` (`str::replace(c, by)`).
pub open spec fn replace_char(s: Seq<char>, c: char, by: Seq<char>) -> Seq<char>
    decreases s.len(),
{
    if s.len() == 0 {
        Seq::empty()
    } else {
        replace_char(s.drop_last(), c, by) + (if s.last() == c { by } else { seq![s.last()] })
    }
}

/// Replaces every `c` in `s` by the characters of `by`.
pub fn replace_char_vec(s: &Vec<char>, c: char, by: &Vec<char>) -> (r: Vec<char>)
    ensures
        r@ == replace_char(s@, c, by@),
{
    let mut out: Vec<char> = Vec::new();
    let mut i: usize = 0;
    while i < s.len()
        invariant
            i <= s.len(),
            out@ == replace_char(s@.take(i as int), c, by@),
        decreases s.len() - i,
    {
        assert(s@.take(i as int + 1).drop_last() =~= s@.take(i as int));
        if s[i] == c {
            extend_chars(&mut out, by);
        } else {
            out.push(s[i]);
            assert(out@ =~= replace_char(s@.take(i as int), c, by@) + seq![s@[i as int]]);
        }
        i = i + 1;
    }
    assert(s@.take(s.len() as int) =~= s@);
    out
}


// ---------------------------------------------------------------------------
// Substrings and encoded length
// ---------------------------------------------------------------------------

/// Index of the first occurrence of `p` in `s` (`str::find`).
pub open spec fn find_sub(s: Seq<char>, p: Seq<char>) -> Option<int>
    decreases s.len(),
{
    if s.len() < p.len() {
        None
    } else if s.take(p.len() as int) == p {
        Some(0)
    } else if s.len() == 0 {
        None
    } else {
        match find_sub(s.drop_first(), p) {
            Some(i) => Some(i + 1),
            None => None,
        }
    }
}

/// Whether `p` occurs in `s`.
pub open spec fn contains_sub(s: Seq<char>, p: Seq<char>) -> bool {
    find_sub(s, p) is Some
}

pub proof fn lemma_find_sub(s: Seq<char>, p: Seq<char>)
    ensures
        find_sub(s, p) matches Some(i) ==> 0 <= i && i + p.len() <= s.len() && s.subrange(i, i + p.len()) == p
            && forall|k: int| 0 <= k < i ==> #[trigger] s.subrange(k, k + p.len()) != p,
        find_sub(s, p) is None ==> forall|k: int| 0 <= k && k + p.len() <= s.len() ==> #[trigger] s.subrange(k, k + p.len()) != p,
    decreases s.len(),
{
    if s.len() >= p.len() && s.take(p.len() as int) != p && s.len() > 0 {
        let t = s.drop_first();
        lemma_find_sub(t, p);
        assert forall|k: int| 0 < k && k + p.len() <= s.len() implies #[trigger] s.subrange(k, k + p.len()) == t.subrange(k - 1, k - 1 + p.len()) by {
            assert(s.subrange(k, k + p.len()) =~= t.subrange(k - 1, k - 1 + p.len()));
        }
        assert(s.subrange(0, p.len() as int) =~= s.take(p.len() as int));
    } else if s.len() >= p.len() && s.take(p.len() as int) == p {
        assert(s.subrange(0, p.len() as int) =~= s.take(p.len() as int));
    }
}

/// First index `i >= lo` at which `p` occurs in `s`.
pub fn find_sub_in(s: &Vec<char>, lo: usize, p: &Vec<char>) -> (r: Option<usize>)
    requires
        lo <= s.len(),
    ensures
        match r {
            Some(i) => lo <= i && find_sub(s@.skip(lo as int), p@) == Some(i - lo),
            None => find_sub(s@.skip(lo as int), p@) is None,
        },
{
    let ghost t = s@.skip(lo as int);
    proof { lemma_find_sub(t, p@); }
    if p.len() > s.len() - lo {
        return None;
    }
    let mut i = lo;
    while p.len() <= s.len() - i
        invariant
            lo <= i <= s.len(),
            p.len() <= s.len() - lo,
            t == s@.skip(lo as int),
            forall|k: int| 0 <= k < i - lo ==> #[trigger] t.subrange(k, k + p@.len()) != p@,
        decreases s.len() - i,
    {
        let hit = range_starts_with(s, i, s.len(), p);
        proof {
            if p@.len() == 0 {
                assert(s@.subrange(i as int, s.len() as int).take(0) =~= p@);
            }
        }
        assert(s@.subrange(i as int, s.len() as int).take(p.len() as int) =~= t.subrange(i - lo, i - lo + p@.len()));
        if hit {
            proof {
                lemma_find_sub(t, p@);
                match find_sub(t, p@) {
                    Some(q) => {
                        if q < i - lo {
                            assert(t.subrange(q, q + p@.len()) != p@);
                        } else if q > i - lo {
                            assert(t.subrange(i - lo, i - lo + p@.len()) != p@);
                        }
                    },
                    None => {
                        assert(t.subrange(i - lo, i - lo + p@.len()) != p@);
                    },
                }
            }
            return Some(i);
        }
        i = i + 1;
    }
    proof {
        lemma_find_sub(t, p@);
        if let Some(q) = find_sub(t, p@) {
            assert(t.subrange(q, q + p@.len()) != p@);
        }
    }
    None
}

/// The text between the first occurrence of `p` and the next one (or the
/// end): the second piece of `s.split(p)`, if there is one.
pub open spec fn after_sub(s: Seq<char>, p: Seq<char>) -> Option<Seq<char>> {
    match find_sub(s, p) {
        Some(i) => {
            let t = s.skip(i + p.len());
            match find_sub(t, p) {
                Some(j) => Some(t.take(j)),
                None => Some(t),
            }
        },
        None => None,
    }
}

/// The second piece of `s[lo..].split(p)` for a non-empty `p`.
pub fn after_sub_in(s: &Vec<char>, lo: usize, p: &Vec<char>) -> (r: Option<Vec<char>>)
    requires
        lo <= s.len(),
        p@.len() > 0,
    ensures
        match r {
            Some(v) => after_sub(s@.skip(lo as int), p@) == Some(v@),
            None => after_sub(s@.skip(lo as int), p@) is None,
        },
{
    let ghost t = s@.skip(lo as int);
    proof { lemma_find_sub(t, p@); }
    match find_sub_in(s, lo, p) {
        None => None,
        Some(i) => {
            let start = i + p.len();
            assert(s@.skip(start as int) =~= t.skip(i - lo + p@.len()));
            let end = match find_sub_in(s, start, p) {
                Some(j) => j,
                None => s.len(),
            };
            proof { lemma_find_sub(s@.skip(start as int), p@); }
            let v = sub_vec(s, start, end);
            assert(v@ =~= match find_sub(s@.skip(start as int), p@) {
                Some(j) => s@.skip(start as int).take(j),
                None => s@.skip(start as int),
            });
            Some(v)
        },
    }
}

/// Bytes `char::len_utf8` gives a character.
pub open spec fn char_utf8_len(c: char) -> nat {
    if (c as u32) < 0x80 {
        1
    } else if (c as u32) < 0x800 {
        2
    } else if (c as u32) < 0x10000 {
        3
    } else {
        4
    }
}

/// Length in UTF-8 bytes of a text (`str::len`).
pub open spec fn utf8_len(s: Seq<char>) -> nat
    decreases s.len(),
{
    if s.len() == 0 {
        0
    } else {
        utf8_len(s.drop_last()) + char_utf8_len(s.last())
    }
}

/// `utf8_len(s[lo..hi])`, or `cap` when that is more.
pub fn utf8_len_capped(s: &Vec<char>, lo: usize, hi: usize, cap: usize) -> (r: usize)
    requires
        lo <= hi <= s.len(),
        cap <= 1000000,
    ensures
        r == if utf8_len(s@.subrange(lo as int, hi as int)) <= cap {
            utf8_len(s@.subrange(lo as int, hi as int))
        } else {
            cap as nat
        },
{
    let mut n: usize = 0;
    let mut i = lo;
    while i < hi
        invariant
            lo <= i <= hi <= s.len(),
            cap <= 1000000,
            n == if utf8_len(s@.subrange(lo as int, i as int)) <= cap {
                utf8_len(s@.subrange(lo as int, i as int))
            } else {
                cap as nat
            },
        decreases hi - i,
    {
        assert(s@.subrange(lo as int, i + 1).drop_last() =~= s@.subrange(lo as int, i as int));
        let c = s[i] as u32;
        let w: usize = if c < 0x80 { 1 } else if c < 0x800 { 2 } else if c < 0x10000 { 3 } else { 4 };
        n = if n + w <= cap { n + w } else { cap };
        i = i + 1;
    }
    n
}


// ---------------------------------------------------------------------------
// Lines
// ---------------------------------------------------------------------------

/// A line without the carriage return before its line break.
pub open spec fn strip_cr(l: Seq<char>) -> Seq<char> {
    if l.len() > 0 && l.last() == '\r' { l.drop_last() } else { l }
}

/// The lines of a text (`str::lines`): the pieces between `\n`, without a
/// final empty one, each piece that ended at a `\n` without its `\r`.
pub open spec fn lines_spec(s: Seq<char>) -> Seq<Seq<char>> {
    if s.len() == 0 {
        Seq::empty()
    } else if s.last() == '\n' {
        split_on(s.drop_last(), '\n').map_values(|l: Seq<char>| strip_cr(l))
    } else {
        let ps = split_on(s, '\n');
        ps.drop_last().map_values(|l: Seq<char>| strip_cr(l)).push(ps.last())
    }
}

proof fn lemma_split_on_nonempty(s: Seq<char>, c: char)
    ensures
        split_on(s, c).len() > 0,
    decreases s.len(),
{
    lemma_find_char(s, c);
    if let Some(p) = find_char(s, c) {
        lemma_split_on_nonempty(s.skip(p + 1), c);
    }
}

/// The lines of a text.
pub fn text_lines(s: &str) -> (r: Vec<Vec<char>>)
    ensures
        r@.map_values(|l: Vec<char>| l@) == lines_spec(s@),
{
    let v = chars_of(s);
    if v.len() == 0 {
        let out: Vec<Vec<char>> = Vec::new();
        assert(out@.map_values(|l: Vec<char>| l@) =~= lines_spec(s@));
        return out;
    }
    let ends = v[v.len() - 1] == '\n';
    let body = if ends { sub_vec(&v, 0, v.len() - 1) } else { sub_vec(&v, 0, v.len()) };
    assert(ends ==> body@ =~= s@.drop_last());
    assert(!ends ==> body@ =~= s@);
    let b = split_bounds(&body, 0, '\n');
    assert(body@.subrange(0, body@.len() as int) =~= body@);
    let ghost ps = pieces(body@, b@);
    proof { lemma_split_on_nonempty(body@, '\n'); }
    let mut out: Vec<Vec<char>> = Vec::new();
    let mut i: usize = 0;
    while i < b.len()
        invariant
            i <= b.len(),
            ps == pieces(body@, b@),
            ps == split_on(body@, '\n'),
            forall|k: int| 0 <= k < b@.len() ==> 0 <= (#[trigger] b@[k]).0 <= b@[k].1 <= body.len(),
            out@.len() == i,
            forall|k: int| 0 <= k < i ==> (#[trigger] out@[k])@ == if !ends && k == b@.len() - 1 { ps[k] } else { strip_cr(ps[k]) },
        decreases b.len() - i,
    {
        let (lo, hi0) = b[i];
        assert(ps[i as int] == body@.subrange(lo as int, hi0 as int));
        let keep_cr = !ends && i == b.len() - 1;
        let hi = if !keep_cr && hi0 > lo && body[hi0 - 1] == '\r' { hi0 - 1 } else { hi0 };
        let line = sub_vec(&body, lo, hi);
        assert(line@ =~= if keep_cr { ps[i as int] } else { strip_cr(ps[i as int]) });
        out.push(line);
        i = i + 1;
    }
    proof {
        if ends {
            assert(out@.map_values(|l: Vec<char>| l@) =~= ps.map_values(|l: Seq<char>| strip_cr(l)));
        } else {
            assert(out@.map_values(|l: Vec<char>| l@) =~= ps.drop_last().map_values(|l: Seq<char>| strip_cr(l)).push(ps.last()));
        }
    }
    out
}

/// What `str::parse::<i32>` gives.
pub open spec fn parse_i32_spec(s: Seq<char>) -> Option<i32> {
    match parse_i64_spec(s) {
        Some(v) => if i32::MIN <= v <= i32::MAX { Some(v as i32) } else { None },
        None => None,
    }
}

/// `str::parse::<i32>` on `s[lo..hi]`.
pub fn parse_i32_in(s: &Vec<char>, lo: usize, hi: usize) -> (r: Option<i32>)
    requires
        lo <= hi <= s.len(),
    ensures
        r == parse_i32_spec(s@.subrange(lo as int, hi as int)),
{
    match parse_i64_in(s, lo, hi) {
        Some(v) => if -2147483648 <= v && v <= 2147483647 { Some(v as i32) } else { None },
        None => None,
    }
}


/// Two runs of digits joined by `:` split back into the two runs.
pub proof fn lemma_split_digits_colon(a: Seq<char>, b: Seq<char>)
    requires
        all_digits(a),
        all_digits(b),
    ensures
        split_on(a + seq![':'] + b, ':') == seq![a, b],
{
    let s = a + seq![':'] + b;
    lemma_find_char(s, ':');
    lemma_find_char(b, ':');
    assert(s[a.len() as int] == ':');
    match find_char(s, ':') {
        Some(i) => {
            if i < a.len() {
                assert(s[i] == a[i]);
                assert(is_digit(a[i]));
            } else if i > a.len() {
                assert(s[a.len() as int] != ':');
            }
        },
        None => {
            assert(s.contains(':'));
        },
    }
    assert(s.take(a.len() as int) =~= a);
    assert(s.skip(a.len() as int + 1) =~= b);
    if let Some(j) = find_char(b, ':') {
        assert(is_digit(b[j]));
    }
    assert(split_on(b, ':') == seq![b]);
}


/// Reading back the decimal rendering of an `i64` gives the number.
pub proof fn lemma_parse_int_decimal(x: i64)
    ensures
        parse_i64_spec(int_decimal(x as int)) == Some(x),
        forall|k: int| 0 <= k < int_decimal(x as int).len() ==> is_digit(#[trigger] int_decimal(x as int)[k]) || int_decimal(x as int)[k] == '-',
{
    if x < 0 {
        let n = (-(x as int)) as nat;
        lemma_decimal_digits(n);
        let s = int_decimal(x as int);
        assert(s.drop_first() =~= decimal(n));
        assert forall|k: int| 0 <= k < s.len() implies is_digit(#[trigger] s[k]) || s[k] == '-' by {
            if k > 0 {
                assert(s[k] == decimal(n)[k - 1]);
            }
        }
    } else {
        lemma_decimal_digits(x as nat);
        let s = int_decimal(x as int);
        assert(is_digit(s[0]));
        assert(unsigned_digits(s) == s);
    }
}

} // verus!
