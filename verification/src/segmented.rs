//! Byte-range planning for segmented (multi-connection) downloads and the
//! checks made on a server's range answers.

use vstd::prelude::*;
use crate::text::{
    chars_of, contains_char_in, decimal, extend_chars, find_char, find_char_in, parse_u64_in,
    parse_u64_spec, range_starts_with, starts_with, trim, trim_bounds, u64_decimal,
};

verus! {

/// Number of connections a segmented download uses.
pub const SEGMENTS: usize = 6;

/// Files below this size are fetched over a single connection.
pub const MIN_SEGMENTED_BYTES: u64 = 8388608;

/// How many ranges `split_ranges(total, n)` makes: `n` (at least one), but
/// never more than the byte count (taken as a `usize`, as the caller's
/// platform holds it).
pub open spec fn segment_count(total: u64, n: usize) -> nat {
    if total == 0 {
        0
    } else {
        let wanted: nat = if n == 0 { 1 } else { n as nat };
        let cap: nat = (total as usize) as nat;
        if wanted <= cap { wanted } else { cap }
    }
}

/// The `i`-th closed range when `total` bytes are cut into `k` pieces of
/// `total / k` bytes, the last piece taking the remainder.
pub open spec fn range_of(total: nat, k: nat, i: int) -> (u64, u64) {
    let base = total / k;
    let start = i * base;
    let end = if i == k - 1 { total - 1 } else { (i + 1) * base - 1 };
    (start as u64, end as u64)
}

/// The ranges `split_ranges(total, n)` returns.
pub open spec fn split_ranges_spec(total: u64, n: usize) -> Seq<(u64, u64)> {
    let k = segment_count(total, n);
    Seq::new(k, |i: int| range_of(total as nat, k, i))
}

/// Splits `total` bytes into closed `[start, end]` ranges: `n` of them (at
/// least one, at most one per byte), equal in size except the last, which
/// takes what is left. No bytes give no ranges.
pub fn split_ranges(total: u64, n: usize) -> (r: Vec<(u64, u64)>)
    requires
        total == 0 || (total as usize) != 0,
    ensures
        r@ == split_ranges_spec(total, n),
{
    if total == 0 {
        let out: Vec<(u64, u64)> = Vec::new();
        assert(out@ =~= split_ranges_spec(total, n));
        return out;
    }
    let wanted: usize = if n == 0 { 1 } else { n };
    #[verifier::truncate]
    let cap: usize = total as usize;
    let k: usize = if wanted <= cap { wanted } else { cap };
    assert(k as nat == segment_count(total, n));
    assert(cap as int <= total) by (bit_vector)
        requires cap == (total as usize);
    let kk: u64 = k as u64;
    let base: u64 = total / kk;
    assert(base >= 1) by (nonlinear_arith)
        requires base == total / kk, 1 <= kk <= total;
    assert(kk * base <= total) by (nonlinear_arith)
        requires base == total / kk, kk >= 1;
    let ghost spec_r = split_ranges_spec(total, n);
    let mut out: Vec<(u64, u64)> = Vec::new();
    let mut start: u64 = 0;
    let mut i: usize = 0;
    while i < k
        invariant
            1 <= k <= total,
            k as nat == segment_count(total, n),
            kk == k as u64,
            base == total / kk,
            base >= 1,
            kk * base <= total,
            i <= k,
            start == i * base,
            spec_r == split_ranges_spec(total, n),
            out@ == spec_r.take(i as int),
        decreases k - i,
    {
        assert(start + base <= total) by (nonlinear_arith)
            requires start == i * base, i < kk, kk * base <= total, base >= 1;
        let end: u64 = if i + 1 == k { total - 1 } else { start + base - 1 };
        assert((i + 1) * base == start + base) by (nonlinear_arith)
            requires start == i * base;
        assert(spec_r[i as int] == (start, end));
        out.push((start, end));
        assert(out@ =~= spec_r.take(i as int + 1));
        start = start + base;
        i = i + 1;
    }
    assert(spec_r.take(k as int) =~= spec_r);
    out
}

/// Index of the range of `split_ranges(total, n)` that holds byte `b`.
pub open spec fn segment_of(total: u64, n: usize, b: int) -> int {
    let k = segment_count(total, n);
    let q = b / (total as nat / k) as int;
    if q < k - 1 { q } else { k - 1 }
}

/// The ranges of `split_ranges` cover every byte exactly once: the first
/// starts at 0, the last ends at `total - 1`, each is non-empty and each
/// starts right after the one before it ends; there are
/// `min(max(n, 1), total)` of them on a platform whose `usize` holds `total`.
pub proof fn lemma_split_ranges_partition(total: u64, n: usize)
    requires
        total > 0,
        total <= usize::MAX,
    ensures
        ({
            let r = split_ranges_spec(total, n);
            &&& r.len() == (if n == 0 { 1 } else if n <= total { n as int } else { total as int })
            &&& r[0].0 == 0
            &&& r[r.len() - 1].1 == total - 1
            &&& forall|i: int| 0 <= i < r.len() ==> #[trigger] r[i].0 <= r[i].1
            &&& forall|i: int| 0 <= i < r.len() - 1 ==> #[trigger] r[i].1 + 1 == r[i + 1].0
            &&& forall|b: int| 0 <= b < total ==> {
                let i = #[trigger] segment_of(total, n, b);
                0 <= i < r.len() && r[i].0 <= b <= r[i].1
            }
        }),
{
    let r = split_ranges_spec(total, n);
    let k = segment_count(total, n);
    assert((total as usize) as nat == total);
    let base = total as nat / k;
    assert(base >= 1) by (nonlinear_arith)
        requires base == total as nat / k, 1 <= k <= total;
    assert(k * base <= total) by (nonlinear_arith)
        requires base == total as nat / k, k >= 1;
    assert forall|i: int| 0 <= i < r.len() implies #[trigger] r[i].0 <= r[i].1 by {
        assert(i * base + base <= total) by (nonlinear_arith)
            requires 0 <= i < k, k * base <= total, base >= 1;
        assert((i + 1) * base == i * base + base) by (nonlinear_arith);
        assert(i * base >= 0) by (nonlinear_arith) requires i >= 0, base >= 1;
    }
    assert forall|i: int| 0 <= i < r.len() - 1 implies #[trigger] r[i].1 + 1 == r[i + 1].0 by {
        assert((i + 1) * base <= total) by (nonlinear_arith)
            requires 0 <= i < k - 1, k * base <= total, base >= 1;
        assert((i + 1) * base >= 1) by (nonlinear_arith) requires i >= 0, base >= 1;
    }
    assert forall|b: int| 0 <= b < total implies {
        let i = #[trigger] segment_of(total, n, b);
        0 <= i < r.len() && r[i].0 <= b <= r[i].1
    } by {
        let q = b / base as int;
        let i = segment_of(total, n, b);
        assert(q * base <= b < q * base + base) by (nonlinear_arith)
            requires q == b / base as int, base >= 1, b >= 0;
        assert(q >= 0) by (nonlinear_arith) requires q == b / base as int, base >= 1, b >= 0;
        assert(i * base <= q * base) by (nonlinear_arith) requires 0 <= i <= q, base >= 1;
        assert(i * base + base <= total) by (nonlinear_arith)
            requires 0 <= i < k, k * base <= total, base >= 1;
        assert((i + 1) * base == i * base + base) by (nonlinear_arith);
        assert(i * base >= 0) by (nonlinear_arith) requires i >= 0, base >= 1;
        assert(r[i].0 <= b <= r[i].1);
    }
}

/// The characters `bytes ` that open a byte-range `Content-Range` value.
pub open spec fn bytes_prefix() -> Seq<char> {
    seq!['b', 'y', 't', 'e', 's', ' ']
}

/// The total that a `Content-Range: bytes a-b/TOTAL` value announces:
/// what follows the first `/`, trimmed and read as a `u64`, provided what
/// precedes it starts with `bytes `, holds a `-` and no `*`.
pub open spec fn content_range_total(v: Seq<char>) -> Option<u64> {
    match find_char(v, '/') {
        None => None,
        Some(p) => {
            let left = v.take(p);
            let right = v.skip(p + 1);
            if starts_with(left, bytes_prefix()) && left.contains('-') && !left.contains('*') {
                parse_u64_spec(trim(right))
            } else {
                None
            }
        },
    }
}

fn bytes_prefix_chars() -> (r: Vec<char>)
    ensures
        r@ == bytes_prefix(),
{
    let r = chars_of("bytes ");
    proof {
        reveal_strlit("bytes ");
        assert(r@ =~= bytes_prefix());
    }
    r
}

/// Reads the total size out of a `Content-Range` value such as
/// `bytes 0-0/12345`.
pub fn parse_content_range_total(v: &str) -> (r: Option<u64>)
    ensures
        r == content_range_total(v@),
{
    let s = chars_of(v);
    let slash = find_char_in(&s, 0, s.len(), '/');
    assert(s@.subrange(0, s@.len() as int) =~= s@);
    match slash {
        None => None,
        Some(p) => {
            assert(s@.subrange(0, p as int) =~= s@.take(p as int));
            assert(s@.subrange(p + 1, s@.len() as int) =~= s@.skip(p + 1));
            let prefix = bytes_prefix_chars();
            if !range_starts_with(&s, 0, p, &prefix) {
                return None;
            }
            if !contains_char_in(&s, 0, p, '-') || contains_char_in(&s, 0, p, '*') {
                return None;
            }
            let (a, b) = trim_bounds(&s, p + 1, s.len());
            parse_u64_in(&s, a, b)
        },
    }
}

/// The status of a `206 Partial Content` answer.
pub const PARTIAL_CONTENT: u16 = 206;

/// What probing a server for range support yields: the total size when the
/// `bytes=0-0` request was answered with 206 and a `Content-Range` naming a
/// positive total that agrees with the `HEAD` length (a missing or zero
/// `HEAD` length is not held against it).
pub open spec fn probe_total_spec(head_len: Option<u64>, status: u16, range: Option<Seq<char>>) -> Option<u64> {
    if status != PARTIAL_CONTENT {
        None
    } else {
        match range {
            None => None,
            Some(v) => match content_range_total(v) {
                Some(t) if t > 0 => match head_len {
                    Some(h) if h > 0 && h != t => None,
                    _ => Some(t),
                },
                _ => None,
            },
        }
    }
}

/// Decides a range probe from the `HEAD` length, the status of the
/// `bytes=0-0` answer and its `Content-Range` value.
pub fn probe_total(head_len: Option<u64>, status: u16, range: Option<&str>) -> (r: Option<u64>)
    ensures
        r == probe_total_spec(head_len, status, match range { Some(v) => Some(v@), None => None }),
{
    if status != PARTIAL_CONTENT {
        return None;
    }
    let v = match range {
        Some(v) => v,
        None => return None,
    };
    let total = match parse_content_range_total(v) {
        Some(t) if t > 0 => t,
        _ => return None,
    };
    match head_len {
        Some(h) if h > 0 && h != total => None,
        _ => Some(total),
    }
}

/// Whether a segment request for bytes from `start` was answered as it must
/// be: status 206 and a `Content-Range` that starts with `bytes {start}-`.
pub open spec fn segment_answer_ok_spec(status: u16, range: Option<Seq<char>>, start: u64) -> bool {
    status == PARTIAL_CONTENT && match range {
        Some(v) => starts_with(v, bytes_prefix() + decimal(start as nat).push('-')),
        None => false,
    }
}

/// Checks a segment answer before its body is written at offset `start`.
pub fn segment_answer_ok(status: u16, range: Option<&str>, start: u64) -> (r: bool)
    ensures
        r == segment_answer_ok_spec(status, match range { Some(v) => Some(v@), None => None }, start),
{
    if status != PARTIAL_CONTENT {
        return false;
    }
    match range {
        None => false,
        Some(v) => {
            let s = chars_of(v);
            let mut want = bytes_prefix_chars();
            let digits = u64_decimal(start);
            extend_chars(&mut want, &digits);
            want.push('-');
            assert(s@.subrange(0, s@.len() as int) =~= s@);
            range_starts_with(&s, 0, s.len(), &want)
        },
    }
}


// ---------------------------------------------------------------------------
// One segment's transfer and the download's outcome
// ---------------------------------------------------------------------------

/// What one connection has written of its segment: bytes written, the
/// segment's length, and bytes since the last progress report.
pub struct SegmentTransfer {
    pub written: u64,
    pub seg_len: u64,
    pub since_report: u64,
}

/// What a received chunk leads to.
#[derive(Clone, Copy, Debug, PartialEq, Eq, Structural)]
pub enum ChunkStep {
    /// More bytes than the segment holds: the download fails.
    Overflow,
    /// The chunk is written; `report` says whether progress is reported now.
    Write { report: bool },
}

impl SegmentTransfer {
    /// Never more written than the segment holds, and the bytes since the
    /// last report are among those written.
    pub open spec fn wf(&self) -> bool {
        self.since_report <= self.written <= self.seg_len
    }

    /// A segment `[start, end]` with nothing written yet.
    pub fn new(start: u64, end: u64) -> (r: SegmentTransfer)
        requires
            start <= end,
            end - start < u64::MAX,
        ensures
            r.wf(),
            r.written == 0 && r.since_report == 0,
            r.seg_len == end - start + 1,
    {
        SegmentTransfer { written: 0, seg_len: end - start + 1, since_report: 0 }
    }

    /// Takes a chunk of `n` bytes: refused when it would take the segment
    /// past its length; otherwise counted, and reported once at least
    /// `report_every` bytes arrived since the last report.
    pub fn on_chunk(&mut self, n: u64, report_every: u64) -> (r: ChunkStep)
        requires
            old(self).wf(),
        ensures
            final(self).wf(),
            final(self).seg_len == old(self).seg_len,
            old(self).written + n > old(self).seg_len ==> r == ChunkStep::Overflow && *final(self) == *old(self),
            old(self).written + n <= old(self).seg_len ==> {
                &&& final(self).written == old(self).written + n
                &&& r == ChunkStep::Write { report: old(self).since_report + n >= report_every }
                &&& final(self).since_report == if old(self).since_report + n >= report_every { 0 } else { old(self).since_report + n }
            },
    {
        if n > self.seg_len - self.written {
            return ChunkStep::Overflow;
        }
        self.written = self.written + n;
        let since = self.since_report + n;
        if since >= report_every {
            self.since_report = 0;
            ChunkStep::Write { report: true }
        } else {
            self.since_report = since;
            ChunkStep::Write { report: false }
        }
    }

    /// The end of the answer: fine when the whole segment arrived, else
    /// `eksik segment ({written}/{seg_len})`.
    pub fn finish(&self) -> (r: Result<(), String>)
        ensures
            r is Ok <==> self.written == self.seg_len,
            r matches Err(e) ==> e@ == "eksik segment ("@ + decimal(self.written as nat) + "/"@ + decimal(self.seg_len as nat) + ")"@,
    {
        if self.written == self.seg_len {
            return Ok(());
        }
        let mut v = chars_of("eksik segment (");
        let a = u64_decimal(self.written);
        extend_chars(&mut v, &a);
        crate::text::extend_str(&mut v, "/");
        let b = u64_decimal(self.seg_len);
        extend_chars(&mut v, &b);
        crate::text::extend_str(&mut v, ")");
        Err(crate::text::string_from(&v))
    }
}

/// The first failure of a download's connections; later ones are dropped.
pub struct FirstError {
    pub msg: Option<String>,
}

impl FirstError {
    /// No failure yet.
    pub fn new() -> (r: FirstError)
        ensures
            r.msg is None,
    {
        FirstError { msg: None }
    }

    /// Records a failure unless one was recorded before.
    pub fn record(&mut self, m: String)
        ensures
            old(self).msg is Some ==> final(self).msg == old(self).msg,
            old(self).msg is None ==> final(self).msg == Some(m),
    {
        if self.msg.is_none() {
            self.msg = Some(m);
        }
    }
}

/// How a segmented download ends: fine unless cancelled; a cancelled one
/// fails with the first recorded failure, or `iptal` when there was none
/// (or it was empty).
pub fn download_outcome(cancelled: bool, first: &FirstError) -> (r: Result<(), String>)
    ensures
        !cancelled ==> r is Ok,
        cancelled ==> match first.msg {
            Some(e) => if e@.len() > 0 { r matches Err(x) && x@ == e@ } else { r matches Err(x) && x@ == "iptal"@ },
            None => r matches Err(x) && x@ == "iptal"@,
        },
{
    if !cancelled {
        return Ok(());
    }
    match &first.msg {
        Some(e) => {
            if e.as_str().unicode_len() > 0 {
                return Err(e.clone());
            }
        },
        None => {},
    }
    Err(crate::text::owned("iptal"))
}

} // verus!
