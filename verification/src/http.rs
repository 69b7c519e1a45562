//! HTTP answers as the application sees them, and the query-string
//! encoding of requests.

use vstd::prelude::*;
use vstd::utf8::{decode_utf8, encode_utf8, valid_utf8};
use crate::text::{decimal, extend_chars, extend_str, owned, string_from, u64_decimal, chars_of};

verus! {

/// A received answer: status, final address (after redirects), announced
/// length and body.
pub struct Resp {
    pub status: u16,
    pub url: String,
    pub content_length: Option<u64>,
    pub body: Vec<u8>,
}

/// Decodes UTF-8 bytes into a `String` (std's `String::from_utf8`): `None`
/// exactly when the bytes are not valid UTF-8.
#[verifier::external_body]
fn string_from_utf8(bytes: Vec<u8>) -> (r: Option<String>)
    ensures
        r is Some <==> valid_utf8(bytes@),
        r matches Some(s) ==> s@ == decode_utf8(bytes@),
{
    match String::from_utf8(bytes) {
        Ok(s) => Some(s),
        Err(_) => None,
    }
}

impl Resp {
    /// The final address of the answer.
    pub fn url(&self) -> (r: String)
        ensures
            r@ == self.url@,
    {
        self.url.clone()
    }

    /// The length the server announced, if any.
    pub fn content_length(&self) -> (r: Option<u64>)
        ensures
            r == self.content_length,
    {
        self.content_length
    }

    /// The answer itself for a 2xx status, else the error `HTTP {status}`.
    pub fn error_for_status(self) -> (r: Result<Resp, String>)
        ensures
            match r {
                Ok(x) => 200 <= self.status < 300 && x == self,
                Err(e) => !(200 <= self.status < 300) && e@ == "HTTP "@ + decimal(self.status as nat),
            },
    {
        if 200 <= self.status && self.status < 300 {
            Ok(self)
        } else {
            let mut v = chars_of("HTTP ");
            let d = u64_decimal(self.status as u64);
            extend_chars(&mut v, &d);
            Err(string_from(&v))
        }
    }

    /// The body as text; an error when it is not UTF-8.
    pub fn text(self) -> (r: Result<String, String>)
        ensures
            match r {
                Ok(s) => valid_utf8(self.body@) && s@ == decode_utf8(self.body@),
                Err(e) => !valid_utf8(self.body@) && e@ == "yanıt UTF-8 değil"@,
            },
    {
        match string_from_utf8(self.body) {
            Some(s) => Ok(s),
            None => Err(owned("yanıt UTF-8 değil")),
        }
    }

    /// The body bytes.
    pub fn bytes(self) -> (r: Result<Vec<u8>, String>)
        ensures
            r matches Ok(b) && b@ == self.body@,
    {
        Ok(self.body)
    }
}

/// Bytes kept as they are in a query string: ASCII letters and digits and
/// `-`, `_`, `.`, `~`, `%`.
pub open spec fn kept_byte(b: u8) -> bool {
    (0x41 <= b <= 0x5a) || (0x61 <= b <= 0x7a) || (0x30 <= b <= 0x39) || b == 0x2d || b == 0x5f || b == 0x2e
        || b == 0x7e || b == 0x25
}

/// Upper-case hexadecimal digit.
pub open spec fn hex_digit(d: nat) -> char {
    if d < 10 {
        ((d + 0x30) as u8) as char
    } else {
        ((d - 10 + 0x41) as u8) as char
    }
}

/// The encoding of one byte: itself, or `%XX`.
pub open spec fn encode_byte(b: u8) -> Seq<char> {
    if kept_byte(b) {
        seq![b as char]
    } else {
        seq!['%', hex_digit((b / 16) as nat), hex_digit((b % 16) as nat)]
    }
}

/// Percent-encoding of a byte string.
pub open spec fn pct_encode_bytes(s: Seq<u8>) -> Seq<char>
    decreases s.len(),
{
    if s.len() == 0 {
        Seq::empty()
    } else {
        pct_encode_bytes(s.drop_last()) + encode_byte(s.last())
    }
}

fn hex_char(d: u8) -> (r: char)
    requires
        d < 16,
    ensures
        r == hex_digit(d as nat),
{
    if d < 10 {
        (d + 0x30) as char
    } else {
        (d - 10 + 0x41) as char
    }
}

/// Percent-encodes the UTF-8 bytes of `s` for a query string (`%` is left
/// as it is).
pub fn pct_encode(s: &str) -> (r: String)
    ensures
        r@ == pct_encode_bytes(encode_utf8(s@)),
{
    let bytes = s.as_bytes();
    assert(bytes@ == encode_utf8(s@));
    let mut out: Vec<char> = Vec::new();
    let mut i: usize = 0;
    while i < bytes.len()
        invariant
            i <= bytes@.len(),
            bytes@ == encode_utf8(s@),
            out@ == pct_encode_bytes(bytes@.take(i as int)),
        decreases bytes.len() - i,
    {
        assert(bytes@.take(i as int + 1).drop_last() =~= bytes@.take(i as int));
        let b = bytes[i];
        if (0x41 <= b && b <= 0x5a) || (0x61 <= b && b <= 0x7a) || (0x30 <= b && b <= 0x39) || b == 0x2d || b
            == 0x5f || b == 0x2e || b == 0x7e || b == 0x25 {
            out.push(b as char);
        } else {
            out.push('%');
            out.push(hex_char(b / 16));
            out.push(hex_char(b % 16));
        }
        assert(out@ =~= pct_encode_bytes(bytes@.take(i as int + 1)));
        i = i + 1;
    }
    assert(bytes@.take(bytes@.len() as int) =~= bytes@);
    string_from(&out)
}

/// Characters a percent-encoded text may hold.
pub open spec fn url_safe_char(c: char) -> bool {
    ('A' <= c <= 'Z') || ('a' <= c <= 'z') || ('0' <= c <= '9') || c == '-' || c == '_' || c == '.' || c == '~'
        || c == '%'
}

/// Percent-encoding leaves only letters, digits and `-_.~%` in the text,
/// whatever the input.
pub proof fn lemma_pct_encode_is_url_safe(s: Seq<u8>)
    ensures
        forall|i: int| 0 <= i < pct_encode_bytes(s).len() ==> url_safe_char(#[trigger] pct_encode_bytes(s)[i]),
    decreases s.len(),
{
    if s.len() > 0 {
        lemma_pct_encode_is_url_safe(s.drop_last());
        let p = pct_encode_bytes(s.drop_last());
        let e = encode_byte(s.last());
        let b = s.last();
        assert forall|i: int| 0 <= i < e.len() implies url_safe_char(#[trigger] e[i]) by {
            if !kept_byte(b) && i > 0 {
                let d: nat = if i == 1 { (b / 16) as nat } else { (b % 16) as nat };
                assert(d < 16);
                assert(e[i] == hex_digit(d));
            }
        }
        assert forall|i: int| 0 <= i < pct_encode_bytes(s).len() implies url_safe_char(#[trigger] pct_encode_bytes(s)[i]) by {
            if i < p.len() {
                assert(pct_encode_bytes(s)[i] == p[i]);
            } else {
                assert(pct_encode_bytes(s)[i] == e[i - p.len()]);
            }
        }
    }
}

/// The `k=v` pairs of a query string, encoded and joined with `&`.
pub open spec fn query_pairs(q: Seq<(Seq<u8>, Seq<u8>)>) -> Seq<char>
    decreases q.len(),
{
    if q.len() == 0 {
        Seq::empty()
    } else {
        let pair = pct_encode_bytes(q.last().0) + "="@ + pct_encode_bytes(q.last().1);
        if q.len() == 1 {
            pair
        } else {
            query_pairs(q.drop_last()) + "&"@ + pair
        }
    }
}

/// A request address with its query: the pairs appended after `?` (or `&`
/// when the address has a query already); unchanged without pairs.
pub open spec fn with_query_spec(url: Seq<char>, q: Seq<(Seq<u8>, Seq<u8>)>) -> Seq<char> {
    if q.len() == 0 {
        url
    } else {
        url + seq![if url.contains('?') { '&' } else { '?' }] + query_pairs(q)
    }
}

/// Appends the encoded query pairs to a request address.
pub fn with_query(url: &str, q: &Vec<(String, String)>) -> (r: String)
    ensures
        r@ == with_query_spec(url@, q@.map_values(|p: (String, String)| (encode_utf8(p.0@), encode_utf8(p.1@)))),
{
    let ghost qv = q@.map_values(|p: (String, String)| (encode_utf8(p.0@), encode_utf8(p.1@)));
    let mut out = chars_of(url);
    if q.len() == 0 {
        return owned(url);
    }
    let has_q = crate::text::contains_char_in(&out, 0, out.len(), '?');
    assert(out@.subrange(0, out@.len() as int) =~= out@);
    if has_q {
        out.push('&');
    } else {
        out.push('?');
    }
    let ghost head = out@;
    let mut i: usize = 0;
    while i < q.len()
        invariant
            i <= q.len(),
            q.len() > 0,
            qv == q@.map_values(|p: (String, String)| (encode_utf8(p.0@), encode_utf8(p.1@))),
            out@ == head + query_pairs(qv.take(i as int)),
        decreases q.len() - i,
    {
        assert(qv.take(i as int + 1).drop_last() =~= qv.take(i as int));
        if i > 0 {
            extend_str(&mut out, "&");
        }
        let k = pct_encode(q[i].0.as_str());
        extend_str(&mut out, k.as_str());
        extend_str(&mut out, "=");
        let v = pct_encode(q[i].1.as_str());
        extend_str(&mut out, v.as_str());
        assert(out@ =~= head + query_pairs(qv.take(i as int + 1)));
        i = i + 1;
    }
    assert(qv.take(q.len() as int) =~= qv);
    string_from(&out)
}

} // verus!
