//! Commands sent to the running mpv over its IPC socket.

use vstd::prelude::*;
use crate::text::{chars_of, decimal, extend_chars, extend_str, replace_char, replace_char_vec, string_from, u64_decimal};

verus! {

/// Text escaped for a JSON string: `\` doubled first, then `"` preceded by `\`.
pub open spec fn json_escape(s: Seq<char>) -> Seq<char> {
    replace_char(replace_char(s, '\\', seq!['\\', '\\']), '"', seq!['\\', '"'])
}

/// The IPC command that shows `text` for `duration_ms` milliseconds.
pub open spec fn show_text_spec(text: Seq<char>, duration_ms: u64) -> Seq<char> {
    "{\"command\":[\"show-text\",\""@ + json_escape(text) + "\","@ + decimal(duration_ms as nat) + "]}"@
}

/// Builds the `show-text` IPC command for `text`, shown `duration_ms`
/// milliseconds (the text escaped for JSON).
pub fn show_text(text: &str, duration_ms: u64) -> (r: String)
    ensures
        r@ == show_text_spec(text@, duration_ms),
{
    let t = chars_of(text);
    let two = vec!['\\', '\\'];
    let q = vec!['\\', '"'];
    assert(two@ =~= seq!['\\', '\\']);
    assert(q@ =~= seq!['\\', '"']);
    let a = replace_char_vec(&t, '\\', &two);
    let b = replace_char_vec(&a, '"', &q);
    let mut out = chars_of("{\"command\":[\"show-text\",\"");
    extend_chars(&mut out, &b);
    extend_str(&mut out, "\",");
    let d = u64_decimal(duration_ms);
    extend_chars(&mut out, &d);
    extend_str(&mut out, "]}");
    assert(out@ =~= show_text_spec(text@, duration_ms));
    string_from(&out)
}

} // verus!
