//! Reading a streamed chat answer (server-sent events): cutting the byte
//! stream into events, taking their `data:` lines, and putting the text
//! pieces and the tool-call fragments of the answer together.

use vstd::prelude::*;
use vstd::utf8::{decode_utf8, valid_utf8};
use crate::aicix::{OpenAIFunctionCall, OpenAIToolCall};
use crate::json::{json_text, parse_json_text, text_member, uint_member, array_of, as_str_spec, as_string, as_u64, as_u64_spec, get_spec, or_zero, Json};
use crate::text::{
    chars_eq, chars_of, decimal, extend_chars, extend_str, owned, range_starts_with, split_bounds, split_on,
    starts_with, string_from, strip_cr, sub_vec, trim, trim_bounds, pieces, u64_decimal,
};

verus! {

/// What `String::from_utf8_lossy` makes of a byte string: the text, with
/// each invalid sequence replaced by U+FFFD.
pub uninterp spec fn utf8_lossy(b: Seq<u8>) -> Seq<char>;

/// Decodes received bytes with std's `String::from_utf8_lossy`; valid
/// UTF-8 comes back as the text it encodes.
#[verifier::external_body]
pub(crate) fn lossy_text(bytes: &[u8]) -> (r: String)
    ensures
        r@ == utf8_lossy(bytes@),
        valid_utf8(bytes@) ==> r@ == decode_utf8(bytes@),
{
    String::from_utf8_lossy(bytes).into_owned()
}

/// Index of the first blank line (`"\n\n"`) in `s`.
pub open spec fn find_blank(s: Seq<char>) -> Option<int>
    decreases s.len(),
{
    if s.len() < 2 {
        None
    } else if s[0] == '\n' && s[1] == '\n' {
        Some(0)
    } else {
        match find_blank(s.drop_first()) {
            Some(i) => Some(i + 1),
            None => None,
        }
    }
}

proof fn lemma_find_blank(s: Seq<char>)
    ensures
        find_blank(s) matches Some(p) ==> 0 <= p && p + 2 <= s.len() && s[p] == '\n' && s[p + 1] == '\n'
            && forall|k: int| 0 <= k < p ==> !(#[trigger] s[k] == '\n' && s[k + 1] == '\n'),
        find_blank(s) is None ==> forall|k: int| 0 <= k && k + 1 < s.len() ==> !(#[trigger] s[k] == '\n' && s[k + 1] == '\n'),
    decreases s.len(),
{
    if s.len() >= 2 && !(s[0] == '\n' && s[1] == '\n') {
        let t = s.drop_first();
        lemma_find_blank(t);
        assert forall|k: int| 0 < k && k + 1 < s.len() implies (#[trigger] s[k] == t[k - 1] && s[k + 1] == t[k]) by {}
    }
}

/// The complete events at the front of `buf` (each up to and including its
/// blank line) and the unfinished rest.
pub open spec fn split_events(buf: Seq<char>) -> (Seq<Seq<char>>, Seq<char>)
    decreases buf.len(),
{
    match find_blank(buf) {
        Some(p) => if 0 <= p && p + 2 <= buf.len() {
            let (evs, rest) = split_events(buf.skip(p + 2));
            (seq![buf.take(p + 2)] + evs, rest)
        } else {
            (Seq::empty(), buf)
        },
        None => (Seq::empty(), buf),
    }
}

/// The lines of an event (`str::lines` of a text that ends with a line
/// break): the pieces between `\n`, each without a final `\r`.
pub open spec fn event_lines(ev: Seq<char>) -> Seq<Seq<char>> {
    split_on(ev.drop_last(), '\n').map_values(|l: Seq<char>| strip_cr(l))
}

/// The payload of a `data:` line, trimmed; `None` for other lines.
pub open spec fn line_data(l: Seq<char>) -> Option<Seq<char>> {
    if starts_with(l, "data:"@) { Some(trim(l.skip(5))) } else { None }
}

/// The payloads of the `data:` lines among `ls`, in order.
pub open spec fn lines_data(ls: Seq<Seq<char>>) -> Seq<Seq<char>>
    decreases ls.len(),
{
    if ls.len() == 0 {
        Seq::empty()
    } else {
        lines_data(ls.drop_last()) + match line_data(ls.last()) {
            Some(d) => seq![d],
            None => Seq::empty(),
        }
    }
}

/// The payloads of the `data:` lines of the events, in order.
pub open spec fn events_data(evs: Seq<Seq<char>>) -> Seq<Seq<char>>
    decreases evs.len(),
{
    if evs.len() == 0 {
        Seq::empty()
    } else {
        events_data(evs.drop_last()) + lines_data(event_lines(evs.last()))
    }
}

/// The payload that ends a stream.
pub open spec fn is_done_spec(d: Seq<char>) -> bool {
    d == "[DONE]"@
}

/// Whether a payload is the end-of-stream marker `[DONE]`.
pub fn is_done(d: &str) -> (r: bool)
    ensures
        r == is_done_spec(d@),
{
    let v = chars_of(d);
    let m = chars_of("[DONE]");
    chars_eq(&v, &m)
}

/// The fragment of one tool call in one streamed piece: which call
/// (`index`), and the id, name and argument text it brings, if any.
#[derive(Clone, Debug)]
pub struct ToolCallDelta {
    pub index: u64,
    pub id: Option<String>,
    pub name: Option<String>,
    pub arguments: Option<String>,
}

/// What one choice of a streamed piece brings: text and tool-call fragments.
#[derive(Clone, Debug)]
pub struct ChoiceDelta {
    pub content: Option<String>,
    pub tool_calls: Vec<ToolCallDelta>,
}

/// A tool call being put together: its index, id, name and argument text.
#[derive(Clone, Debug)]
pub struct PendingCall {
    pub index: u64,
    pub id: String,
    pub name: String,
    pub arguments: String,
}

/// A pending call as plain values.
pub struct CallView {
    pub index: u64,
    pub id: Seq<char>,
    pub name: Seq<char>,
    pub arguments: Seq<char>,
}

impl View for PendingCall {
    type V = CallView;

    open spec fn view(&self) -> CallView {
        CallView { index: self.index, id: self.id@, name: self.name@, arguments: self.arguments@ }
    }
}

/// A fragment as plain values.
pub struct DeltaView {
    pub index: u64,
    pub id: Option<Seq<char>>,
    pub name: Option<Seq<char>>,
    pub arguments: Option<Seq<char>>,
}

pub open spec fn opt_view(o: Option<String>) -> Option<Seq<char>> {
    match o {
        Some(s) => Some(s@),
        None => None,
    }
}

impl View for ToolCallDelta {
    type V = DeltaView;

    open spec fn view(&self) -> DeltaView {
        DeltaView { index: self.index, id: opt_view(self.id), name: opt_view(self.name), arguments: opt_view(self.arguments) }
    }
}

/// A choice as plain values: its text and fragments.
pub struct ChoiceView {
    pub content: Option<Seq<char>>,
    pub tool_calls: Seq<DeltaView>,
}

impl View for ChoiceDelta {
    type V = ChoiceView;

    open spec fn view(&self) -> ChoiceView {
        ChoiceView {
            content: opt_view(self.content),
            tool_calls: self.tool_calls@.map_values(|d: ToolCallDelta| d@),
        }
    }
}

/// Position of the call with index `idx`, if one was started.
pub open spec fn call_pos(calls: Seq<CallView>, idx: u64) -> Option<int>
    decreases calls.len(),
{
    if calls.len() == 0 {
        None
    } else {
        match call_pos(calls.drop_last(), idx) {
            Some(p) => Some(p),
            None => if calls.last().index == idx { Some(calls.len() - 1) } else { None },
        }
    }
}

/// A call after one fragment: a non-empty id replaces the id, a non-empty
/// name is appended to the name, argument text is appended to the arguments.
pub open spec fn merge_call(c: CallView, d: DeltaView) -> CallView {
    CallView {
        index: c.index,
        id: match d.id {
            Some(i) => if i.len() > 0 { i } else { c.id },
            None => c.id,
        },
        name: match d.name {
            Some(n) => if n.len() > 0 { c.name + n } else { c.name },
            None => c.name,
        },
        arguments: match d.arguments {
            Some(a) => c.arguments + a,
            None => c.arguments,
        },
    }
}

/// The calls after one fragment: the call with its index is updated, or a
/// new empty one is started for it at the end.
pub open spec fn apply_delta(calls: Seq<CallView>, d: DeltaView) -> Seq<CallView> {
    match call_pos(calls, d.index) {
        Some(p) => calls.update(p, merge_call(calls[p], d)),
        None => calls.push(merge_call(CallView { index: d.index, id: Seq::empty(), name: Seq::empty(), arguments: Seq::empty() }, d)),
    }
}

/// The calls after a sequence of fragments.
pub open spec fn apply_deltas(calls: Seq<CallView>, ds: Seq<DeltaView>) -> Seq<CallView>
    decreases ds.len(),
{
    if ds.len() == 0 {
        calls
    } else {
        apply_delta(apply_deltas(calls, ds.drop_last()), ds.last())
    }
}

/// The text a choice contributes (none when absent or empty).
pub open spec fn choice_text(c: ChoiceView) -> Seq<Seq<char>> {
    match c.content {
        Some(t) => if t.len() > 0 { seq![t] } else { Seq::empty() },
        None => Seq::empty(),
    }
}

/// The text pieces of the choices, in order.
pub open spec fn choices_text(cs: Seq<ChoiceView>) -> Seq<Seq<char>>
    decreases cs.len(),
{
    if cs.len() == 0 {
        Seq::empty()
    } else {
        choices_text(cs.drop_last()) + choice_text(cs.last())
    }
}

/// The calls after the fragments of all the choices.
pub open spec fn apply_choices(calls: Seq<CallView>, cs: Seq<ChoiceView>) -> Seq<CallView>
    decreases cs.len(),
{
    if cs.len() == 0 {
        calls
    } else {
        apply_deltas(apply_choices(calls, cs.drop_last()), cs.last().tool_calls)
    }
}

/// Text pieces joined.
pub open spec fn concat(ps: Seq<Seq<char>>) -> Seq<char>
    decreases ps.len(),
{
    if ps.len() == 0 {
        Seq::empty()
    } else {
        concat(ps.drop_last()) + ps.last()
    }
}

/// The calls of a finished answer: those that got an id, in the order
/// they were started.
pub open spec fn finished_calls(calls: Seq<CallView>) -> Seq<CallView>
    decreases calls.len(),
{
    if calls.len() == 0 {
        Seq::empty()
    } else {
        finished_calls(calls.drop_last()) + if calls.last().id.len() > 0 { seq![calls.last()] } else { Seq::empty() }
    }
}

/// Whether `t` is the finished call `c`.
pub open spec fn call_matches(t: OpenAIToolCall, c: CallView) -> bool {
    &&& t.id@ == c.id
    &&& t.kind@ == "function"@
    &&& t.function.name@ == c.name
    &&& t.function.arguments@ == c.arguments
}

/// A streamed answer being read: the unfinished event text, the answer
/// text so far and the tool calls being put together.
pub struct SseStream {
    pub buffer: Vec<char>,
    pub content: Vec<char>,
    pub calls: Vec<PendingCall>,
}

/// The views of the pending calls.
pub open spec fn call_views(v: Seq<PendingCall>) -> Seq<CallView> {
    v.map_values(|c: PendingCall| c@)
}

fn data_of_event(ev: &Vec<char>) -> (r: Vec<String>)
    requires
        ev.len() >= 1,
    ensures
        r@.map_values(|s: String| s@) == lines_data(event_lines(ev@)),
{
    let body = sub_vec(ev, 0, ev.len() - 1);
    assert(body@ =~= ev@.drop_last());
    let b = split_bounds(&body, 0, '\n');
    assert(body@.subrange(0, body@.len() as int) =~= body@);
    let ghost ls = event_lines(ev@);
    let ghost ps = pieces(body@, b@);
    assert(ls =~= ps.map_values(|l: Seq<char>| strip_cr(l)));
    let prefix = chars_of("data:");
    proof { reveal_strlit("data:"); }
    let mut out: Vec<String> = Vec::new();
    let mut i: usize = 0;
    while i < b.len()
        invariant
            i <= b.len(),
            ls == ps.map_values(|l: Seq<char>| strip_cr(l)),
            ps == pieces(body@, b@),
            prefix@ == "data:"@,
            forall|k: int| 0 <= k < b@.len() ==> 0 <= (#[trigger] b@[k]).0 <= b@[k].1 <= body.len(),
            out@.map_values(|s: String| s@) == lines_data(ls.take(i as int)),
        decreases b.len() - i,
    {
        let (lo, hi0) = b[i];
        let hi = if hi0 > lo && body[hi0 - 1] == '\r' { hi0 - 1 } else { hi0 };
        let ghost line = body@.subrange(lo as int, hi as int);
        assert(ps[i as int] == body@.subrange(lo as int, hi0 as int));
        assert(line == ls[i as int]);
        assert(ls.take(i as int + 1).drop_last() =~= ls.take(i as int));
        if range_starts_with(&body, lo, hi, &prefix) {
            proof { reveal_strlit("data:"); }
            assert(prefix@.len() == 5);
            let (a, z) = trim_bounds(&body, lo + 5, hi);
            assert(body@.subrange(lo + 5, hi as int) =~= line.skip(5));
            let d = sub_vec(&body, a, z);
            let ds = string_from(&d);
            out.push(ds);
            assert(out@.map_values(|s: String| s@) =~= lines_data(ls.take(i as int + 1)));
        } else {
            assert(out@.map_values(|s: String| s@) =~= lines_data(ls.take(i as int + 1)));
        }
        i = i + 1;
    }
    assert(ls.take(b.len() as int) =~= ls);
    out
}

fn find_blank_in(s: &Vec<char>) -> (r: Option<usize>)
    ensures
        match r {
            Some(p) => find_blank(s@) == Some(p as int),
            None => find_blank(s@) is None,
        },
{
    proof { lemma_find_blank(s@); }
    let mut i: usize = 0;
    while i + 1 < s.len()
        invariant
            i == 0 || i < s.len(),
            forall|k: int| 0 <= k < i ==> !(#[trigger] s@[k] == '\n' && s@[k + 1] == '\n'),
        decreases s.len() - i,
    {
        if s[i] == '\n' && s[i + 1] == '\n' {
            proof {
                lemma_find_blank(s@);
                match find_blank(s@) {
                    Some(p) => {
                        if p < i {
                            assert(!(s@[p] == '\n' && s@[p + 1] == '\n'));
                        } else if p > i {
                            assert(!(s@[i as int] == '\n' && s@[i + 1] == '\n'));
                        }
                    },
                    None => {
                        assert(!(s@[i as int] == '\n' && s@[i + 1] == '\n'));
                    },
                }
            }
            return Some(i);
        }
        i = i + 1;
    }
    proof {
        lemma_find_blank(s@);
        if let Some(p) = find_blank(s@) {
            assert(p < i);
            assert(!(s@[p] == '\n' && s@[p + 1] == '\n'));
        }
    }
    None
}

fn find_call(calls: &Vec<PendingCall>, idx: u64) -> (r: Option<usize>)
    ensures
        match r {
            Some(p) => call_pos(call_views(calls@), idx) == Some(p as int),
            None => call_pos(call_views(calls@), idx) is None,
        },
{
    let ghost cv = call_views(calls@);
    let mut i: usize = 0;
    while i < calls.len()
        invariant
            i <= calls.len(),
            cv == call_views(calls@),
            call_pos(cv.take(i as int), idx) is None,
        decreases calls.len() - i,
    {
        assert(cv.take(i as int + 1).drop_last() =~= cv.take(i as int));
        if calls[i].index == idx {
            proof { lemma_call_pos_prefix(cv, i as int + 1, idx); }
            return Some(i);
        }
        i = i + 1;
    }
    assert(cv.take(calls.len() as int) =~= cv);
    None
}

proof fn lemma_call_pos_prefix(s: Seq<CallView>, n: int, idx: u64)
    requires
        0 <= n <= s.len(),
        call_pos(s.take(n), idx) is Some,
    ensures
        call_pos(s, idx) == call_pos(s.take(n), idx),
    decreases s.len() - n,
{
    if n < s.len() {
        assert(s.take(n + 1).drop_last() =~= s.take(n));
        assert(call_pos(s.take(n + 1), idx) == call_pos(s.take(n), idx));
        lemma_call_pos_prefix(s, n + 1, idx);
    } else {
        assert(s.take(n) =~= s);
    }
}

proof fn lemma_call_pos_range(s: Seq<CallView>, idx: u64)
    ensures
        call_pos(s, idx) matches Some(p) ==> 0 <= p < s.len() && s[p].index == idx,
    decreases s.len(),
{
    if s.len() > 0 {
        lemma_call_pos_range(s.drop_last(), idx);
    }
}

fn append_str(s: &mut String, t: &str)
    ensures
        final(s)@ == old(s)@ + t@,
{
    let mut v = chars_of(s.as_str());
    extend_str(&mut v, t);
    *s = string_from(&v);
}

fn merge_into(c: &mut PendingCall, d: &ToolCallDelta)
    ensures
        final(c)@ == merge_call(old(c)@, d@),
{
    if let Some(i) = &d.id {
        if !i.as_str().is_empty() {
            c.id = i.clone();
        }
    }
    if let Some(n) = &d.name {
        if !n.as_str().is_empty() {
            append_str(&mut c.name, n.as_str());
        }
    }
    if let Some(a) = &d.arguments {
        append_str(&mut c.arguments, a.as_str());
    }
}

impl SseStream {
    /// Nothing read yet.
    pub fn new() -> (r: SseStream)
        ensures
            r.buffer@.len() == 0 && r.content@.len() == 0 && r.calls@.len() == 0,
    {
        SseStream { buffer: Vec::new(), content: Vec::new(), calls: Vec::new() }
    }

    /// Takes in received bytes and returns the `data:` payloads of the
    /// events they complete, in order; an unfinished event waits for more.
    pub fn feed(&mut self, bytes: &[u8]) -> (r: Vec<String>)
        ensures
            final(self).buffer@ == split_events(old(self).buffer@ + utf8_lossy(bytes@)).1,
            r@.map_values(|s: String| s@) == events_data(split_events(old(self).buffer@ + utf8_lossy(bytes@)).0),
            final(self).content@ == old(self).content@,
            final(self).calls@ == old(self).calls@,
    {
        let text = lossy_text(bytes);
        let tv = chars_of(text.as_str());
        extend_chars(&mut self.buffer, &tv);
        let ghost all = self.buffer@;
        assert(all == old(self).buffer@ + utf8_lossy(bytes@));
        let ghost mut done: Seq<Seq<char>> = Seq::empty();
        let mut out: Vec<String> = Vec::new();
        loop
            invariant
                all == old(self).buffer@ + utf8_lossy(bytes@),
                split_events(all).0 == done + split_events(self.buffer@).0,
                split_events(all).1 == split_events(self.buffer@).1,
                out@.map_values(|s: String| s@) == events_data(done),
                self.content@ == old(self).content@,
                self.calls@ == old(self).calls@,
            decreases self.buffer@.len(),
        {
            proof { lemma_find_blank(self.buffer@); }
            match find_blank_in(&self.buffer) {
                None => {
                    assert(split_events(self.buffer@) == (Seq::<Seq<char>>::empty(), self.buffer@));
                    assert(done + split_events(self.buffer@).0 =~= done);
                    return out;
                },
                Some(p) => {
                    let ghost cur = self.buffer@;
                    let n = self.buffer.len();
                    let ev = sub_vec(&self.buffer, 0, p + 2);
                    let rest = sub_vec(&self.buffer, p + 2, n);
                    assert(ev@ =~= cur.take(p + 2));
                    assert(rest@ =~= cur.skip(p + 2));
                    let mut ds = data_of_event(&ev);
                    let ghost before = out@.map_values(|s: String| s@);
                    let ghost dsv = ds@.map_values(|s: String| s@);
                    out.append(&mut ds);
                    assert(out@.map_values(|s: String| s@) =~= before + dsv);
                    proof {
                        let e = cur.take(p + 2);
                        assert(split_events(cur).0 == seq![e] + split_events(cur.skip(p + 2)).0);
                        assert(done.push(e).drop_last() =~= done);
                        assert(events_data(done.push(e)) == events_data(done) + lines_data(event_lines(e)));
                        assert(done + split_events(cur).0 =~= done.push(e) + split_events(cur.skip(p + 2)).0);
                        done = done.push(e);
                    }
                    self.buffer = rest;
                },
            }
        }
    }

    /// Takes in the choices of one streamed piece: their text is added to
    /// the answer and returned (non-empty pieces, in order), their
    /// tool-call fragments are merged into the calls.
    pub fn apply(&mut self, choices: &Vec<ChoiceDelta>) -> (r: Vec<String>)
        ensures
            r@.map_values(|s: String| s@) == choices_text(choices@.map_values(|c: ChoiceDelta| c@)),
            final(self).content@ == old(self).content@ + concat(r@.map_values(|s: String| s@)),
            call_views(final(self).calls@) == apply_choices(call_views(old(self).calls@), choices@.map_values(|c: ChoiceDelta| c@)),
            final(self).buffer@ == old(self).buffer@,
    {
        let ghost cs = choices@.map_values(|c: ChoiceDelta| c@);
        let mut out: Vec<String> = Vec::new();
        let mut i: usize = 0;
        while i < choices.len()
            invariant
                i <= choices.len(),
                cs == choices@.map_values(|c: ChoiceDelta| c@),
                out@.map_values(|s: String| s@) == choices_text(cs.take(i as int)),
                self.content@ == old(self).content@ + concat(out@.map_values(|s: String| s@)),
                call_views(self.calls@) == apply_choices(call_views(old(self).calls@), cs.take(i as int)),
                self.buffer@ == old(self).buffer@,
            decreases choices.len() - i,
        {
            assert(cs.take(i as int + 1).drop_last() =~= cs.take(i as int));
            let c = &choices[i];
            let ghost before = out@.map_values(|s: String| s@);
            if let Some(t) = &c.content {
                if !t.as_str().is_empty() {
                    let tv = chars_of(t.as_str());
                    extend_chars(&mut self.content, &tv);
                    out.push(t.clone());
                    assert(out@.map_values(|s: String| s@) =~= before.push(t@));
                    assert(before.push(t@).drop_last() =~= before);
                }
            }
            assert(out@.map_values(|s: String| s@) =~= choices_text(cs.take(i as int + 1)));
            let ghost dv = c.tool_calls@.map_values(|d: ToolCallDelta| d@);
            let ghost base = call_views(self.calls@);
            let mut j: usize = 0;
            while j < c.tool_calls.len()
                invariant
                    j <= c.tool_calls.len(),
                    dv == c.tool_calls@.map_values(|d: ToolCallDelta| d@),
                    call_views(self.calls@) == apply_deltas(base, dv.take(j as int)),
                    self.buffer@ == old(self).buffer@,
                    self.content@ == old(self).content@ + concat(out@.map_values(|s: String| s@)),
                decreases c.tool_calls.len() - j,
            {
                assert(dv.take(j as int + 1).drop_last() =~= dv.take(j as int));
                let d = &c.tool_calls[j];
                let ghost cv = call_views(self.calls@);
                proof { lemma_call_pos_range(cv, d.index); }
                match find_call(&self.calls, d.index) {
                    Some(p) => {
                        let mut pc = self.calls.remove(p);
                        merge_into(&mut pc, d);
                        self.calls.insert(p, pc);
                        assert(call_views(self.calls@) =~= cv.update(p as int, merge_call(cv[p as int], d@)));
                    },
                    None => {
                        let mut pc = PendingCall { index: d.index, id: String::new(), name: String::new(), arguments: String::new() };
                        merge_into(&mut pc, d);
                        self.calls.push(pc);
                        assert(call_views(self.calls@) =~= cv.push(merge_call(
                            CallView { index: d.index, id: Seq::empty(), name: Seq::empty(), arguments: Seq::empty() },
                            d@,
                        )));
                    },
                }
                j = j + 1;
            }
            assert(dv.take(c.tool_calls.len() as int) =~= dv);
            proof {
                let ghost t = out@.map_values(|s: String| s@);
                assert(cs[i as int].tool_calls == dv);
            }
            i = i + 1;
        }
        assert(cs.take(choices.len() as int) =~= cs);
        out
    }

    /// The answer text read so far.
    pub fn content(&self) -> (r: String)
        ensures
            r@ == self.content@,
    {
        string_from(&self.content)
    }

    /// The tool calls of the answer: those that got an id, in the order
    /// they were started, each of kind `function`.
    pub fn finish_calls(&self) -> (r: Vec<OpenAIToolCall>)
        ensures
            r@.len() == finished_calls(call_views(self.calls@)).len(),
            forall|i: int| 0 <= i < r@.len() ==> call_matches(#[trigger] r@[i], finished_calls(call_views(self.calls@))[i]),
    {
        let ghost cv = call_views(self.calls@);
        let mut out: Vec<OpenAIToolCall> = Vec::new();
        let mut i: usize = 0;
        while i < self.calls.len()
            invariant
                i <= self.calls.len(),
                cv == call_views(self.calls@),
                out@.len() == finished_calls(cv.take(i as int)).len(),
                forall|k: int| 0 <= k < out@.len() ==> call_matches(#[trigger] out@[k], finished_calls(cv.take(i as int))[k]),
            decreases self.calls.len() - i,
        {
            assert(cv.take(i as int + 1).drop_last() =~= cv.take(i as int));
            let c = &self.calls[i];
            let ghost prev = finished_calls(cv.take(i as int));
            if !c.id.as_str().is_empty() {
                let t = OpenAIToolCall {
                    id: c.id.clone(),
                    kind: owned("function"),
                    function: OpenAIFunctionCall { name: c.name.clone(), arguments: c.arguments.clone() },
                };
                proof { reveal_strlit("function"); }
                out.push(t);
                assert(finished_calls(cv.take(i as int + 1)) =~= prev.push(cv[i as int]));
            } else {
                assert(finished_calls(cv.take(i as int + 1)) =~= prev);
            }
            i = i + 1;
        }
        assert(cv.take(self.calls.len() as int) =~= cv);
        out
    }
}

proof fn lemma_find_blank_extend(a: Seq<char>, b: Seq<char>)
    requires
        find_blank(a) is Some,
    ensures
        find_blank(a + b) == find_blank(a),
    decreases a.len(),
{
    if !(a[0] == '\n' && a[1] == '\n') {
        assert((a + b).drop_first() =~= a.drop_first() + b);
        lemma_find_blank_extend(a.drop_first(), b);
    }
}

/// Events do not depend on where the received text was cut: reading `a`
/// and then `b` gives the events of `a`, then those of what was left of
/// `a` followed by `b`, exactly the events (and the rest) of `a + b`.
pub proof fn lemma_events_independent_of_cuts(a: Seq<char>, b: Seq<char>)
    ensures
        split_events(a + b).0 == split_events(a).0 + split_events(split_events(a).1 + b).0,
        split_events(a + b).1 == split_events(split_events(a).1 + b).1,
    decreases a.len(),
{
    lemma_find_blank(a);
    match find_blank(a) {
        Some(p) => {
            lemma_find_blank_extend(a, b);
            let e = a.take(p + 2);
            assert((a + b).take(p + 2) =~= e);
            assert((a + b).skip(p + 2) =~= a.skip(p + 2) + b);
            lemma_events_independent_of_cuts(a.skip(p + 2), b);
            assert(split_events(a + b).0 =~= seq![e] + split_events(a.skip(p + 2) + b).0);
            assert(split_events(a).0 =~= seq![e] + split_events(a.skip(p + 2)).0);
        },
        None => {
            assert(split_events(a) == (Seq::<Seq<char>>::empty(), a));
            assert(Seq::<Seq<char>>::empty() + split_events(a + b).0 =~= split_events(a + b).0);
        },
    }
}

/// The first `n` characters of `s` (all of them when shorter).
pub open spec fn first_chars(s: Seq<char>, n: nat) -> Seq<char> {
    if s.len() <= n { s } else { s.take(n as int) }
}

fn first_chars_of(s: &str, n: usize) -> (r: Vec<char>)
    ensures
        r@ == first_chars(s@, n as nat),
{
    let v = chars_of(s);
    if v.len() <= n {
        v
    } else {
        sub_vec(&v, 0, n)
    }
}

/// The error a failed streaming request reports: `HTTP {status}: ` and the
/// first 300 characters of the answer body.
pub open spec fn stream_error_spec(status: u16, body: Seq<char>) -> Seq<char> {
    "HTTP "@ + decimal(status as nat) + ": "@ + first_chars(body, 300)
}

/// Decides a streaming answer's status: `Some` error for a status of 400
/// or more, `None` when the stream may be read.
pub fn stream_status_error(status: u16, body: &str) -> (r: Option<String>)
    ensures
        r is Some <==> status >= 400,
        r matches Some(e) ==> e@ == stream_error_spec(status, body@),
{
    if status < 400 {
        return None;
    }
    let mut v = chars_of("HTTP ");
    let d = u64_decimal(status as u64);
    extend_chars(&mut v, &d);
    extend_str(&mut v, ": ");
    let b = first_chars_of(body, 300);
    extend_chars(&mut v, &b);
    Some(string_from(&v))
}

/// What the connection test reports for an answer: success only for 200,
/// else `HTTP {status}: ` and the first 200 characters of the body.
pub fn connection_test_result(status: u16, body: &str) -> (r: Result<String, String>)
    ensures
        r is Ok <==> status == 200,
        r matches Ok(m) ==> m@ == "Bağlantı başarılı (HTTP 200)"@,
        r matches Err(e) ==> e@ == "HTTP "@ + decimal(status as nat) + ": "@ + first_chars(body@, 200),
{
    if status == 200 {
        Ok(owned("Bağlantı başarılı (HTTP 200)"))
    } else {
        let mut v = chars_of("HTTP ");
        let d = u64_decimal(status as u64);
        extend_chars(&mut v, &d);
        extend_str(&mut v, ": ");
        let b = first_chars_of(body, 200);
        extend_chars(&mut v, &b);
        Err(string_from(&v))
    }
}


// ---------------------------------------------------------------------------
// Reading a streamed piece's choices
// ---------------------------------------------------------------------------

/// A member of a tool call's `function` object.
pub open spec fn function_member(tc: Json, key: Seq<char>) -> Option<Seq<char>> {
    match get_spec(tc, "function"@) {
        Some(f) => as_str_spec(get_spec(f, key)),
        None => None,
    }
}

/// A tool-call fragment as read: its index (0 when missing), id, and its
/// function's name and arguments, where given as text.
pub open spec fn tool_delta_ok(tc: Json, d: ToolCallDelta) -> bool {
    &&& d.index == or_zero(as_u64_spec(get_spec(tc, "index"@)))
    &&& opt_view(d.id) == as_str_spec(get_spec(tc, "id"@))
    &&& opt_view(d.name) == function_member(tc, "name"@)
    &&& opt_view(d.arguments) == function_member(tc, "arguments"@)
}

/// The array under `key` of an optional object, or none.
pub open spec fn items_under(v: Option<Json>, key: Seq<char>) -> Seq<Json> {
    match v {
        Some(x) => match get_spec(x, key) {
            Some(Json::Array(a)) => a@,
            _ => Seq::empty(),
        },
        None => Seq::empty(),
    }
}

/// A choice as read: its `delta`'s text, where given, and its tool-call
/// fragments.
pub open spec fn choice_ok(c: Json, d: ChoiceDelta) -> bool {
    let delta = get_spec(c, "delta"@);
    let tcs = items_under(delta, "tool_calls"@);
    &&& opt_view(d.content) == match delta { Some(x) => as_str_spec(get_spec(x, "content"@)), None => None }
    &&& d.tool_calls@.len() == tcs.len()
    &&& forall|i: int| 0 <= i < tcs.len() ==> tool_delta_ok(tcs[i], #[trigger] d.tool_calls@[i])
}

fn function_text(tc: &Json, key: &str) -> (r: Option<String>)
    ensures
        opt_view(r) == function_member(*tc, key@),
{
    match tc.get("function") {
        Some(f) => {
            let r = as_string(f.get(key));
            assert(opt_view(r) == as_str_spec(get_spec(*f, key@)));
            r
        },
        None => None,
    }
}

fn tool_deltas(delta: Option<&Json>) -> (r: Vec<ToolCallDelta>)
    ensures
        r@.len() == items_under(match delta { Some(x) => Some(*x), None => None }, "tool_calls"@).len(),
        forall|i: int| 0 <= i < r@.len() ==>
            tool_delta_ok(items_under(match delta { Some(x) => Some(*x), None => None }, "tool_calls"@)[i], #[trigger] r@[i]),
{
    let mut out: Vec<ToolCallDelta> = Vec::new();
    let tcs: &Vec<Json> = match delta {
        Some(d) => match d.get("tool_calls") {
            Some(Json::Array(a)) => a,
            _ => return out,
        },
        None => return out,
    };
    let ghost want = items_under(match delta { Some(x) => Some(*x), None => None }, "tool_calls"@);
    assert(want == tcs@);
    let mut i: usize = 0;
    while i < tcs.len()
        invariant
            i <= tcs@.len(),
            out@.len() == i,
            forall|k: int| 0 <= k < i ==> tool_delta_ok(tcs@[k], #[trigger] out@[k]),
        decreases tcs@.len() - i,
    {
        let tc = &tcs[i];
        let d = ToolCallDelta {
            index: match as_u64(tc.get("index")) { Some(n) => n, None => 0 },
            id: as_string(tc.get("id")),
            name: function_text(tc, "name"),
            arguments: function_text(tc, "arguments"),
        };
        out.push(d);
        i = i + 1;
    }
    out
}

/// The choices of a streamed piece (its `choices`), read.
pub fn choice_deltas(v: &Json) -> (r: Vec<ChoiceDelta>)
    ensures
        r@.len() == crate::rows::items_of(*v, "choices"@).len(),
        forall|i: int| 0 <= i < r@.len() ==> choice_ok(crate::rows::items_of(*v, "choices"@)[i], #[trigger] r@[i]),
{
    let mut out: Vec<ChoiceDelta> = Vec::new();
    let a = match array_of(v, "choices") {
        Some(a) => a,
        None => return out,
    };
    let mut i: usize = 0;
    while i < a.len()
        invariant
            i <= a@.len(),
            a@ == crate::rows::items_of(*v, "choices"@),
            out@.len() == i,
            forall|k: int| 0 <= k < i ==> choice_ok(a@[k], #[trigger] out@[k]),
        decreases a@.len() - i,
    {
        let c = &a[i];
        let delta = c.get("delta");
        let content = match delta {
            Some(d) => as_string(d.get("content")),
            None => None,
        };
        let tool_calls = tool_deltas(delta);
        let cd = ChoiceDelta { content, tool_calls };
        assert(choice_ok(*c, cd));
        out.push(cd);
        i = i + 1;
    }
    out
}

/// The choices of one streamed event, read from its data text: nothing
/// when the text is not JSON (such an event is passed over).
pub fn event_choices(data: &str) -> (r: Option<Vec<ChoiceDelta>>)
    ensures
        match json_text(data@) {
            None => r is None,
            Some(v) => r matches Some(d) && d@.len() == crate::rows::items_of(v, "choices"@).len()
                && forall|i: int| 0 <= i < d@.len() ==> choice_ok(crate::rows::items_of(v, "choices"@)[i], #[trigger] d@[i]),
        },
{
    match parse_json_text(data) {
        Ok(v) => Some(choice_deltas(&v)),
        Err(_) => None,
    }
}

/// A tool-call fragment read from the stream holds the fragment's members:
/// the unsigned `index` (0 when missing), the text `id`, and the texts
/// `name` and `arguments` of its `function` object, each where given.
pub proof fn lemma_tool_delta_members(tc: Json, d: ToolCallDelta)
    requires
        tool_delta_ok(tc, d),
    ensures
        d.index == match uint_member(tc, "index"@) { Some(k) => k, None => 0 },
        opt_view(d.id) == text_member(tc, "id"@),
        opt_view(d.name) == match get_spec(tc, "function"@) { Some(f) => text_member(f, "name"@), None => None },
        opt_view(d.arguments) == match get_spec(tc, "function"@) { Some(f) => text_member(f, "arguments"@), None => None },
{
}

/// A choice read from the stream brings its `delta`'s text `content`, where
/// given, and one fragment per entry of the delta's `tool_calls`, in order,
/// each holding that entry's members.
pub proof fn lemma_choice_members(c: Json, d: ChoiceDelta)
    requires
        choice_ok(c, d),
    ensures
        opt_view(d.content) == match get_spec(c, "delta"@) { Some(x) => text_member(x, "content"@), None => None },
        d.tool_calls@.len() == match get_spec(c, "delta"@) {
            Some(x) => match get_spec(x, "tool_calls"@) { Some(Json::Array(a)) => a@.len(), _ => 0 },
            None => 0,
        },
        forall|i: int| 0 <= i < d.tool_calls@.len() ==> match get_spec(c, "delta"@) {
            Some(x) => match get_spec(x, "tool_calls"@) {
                Some(Json::Array(a)) => (#[trigger] d.tool_calls@[i]).index == match uint_member(a@[i], "index"@) { Some(k) => k, None => 0 }
                    && opt_view(d.tool_calls@[i].id) == text_member(a@[i], "id"@),
                _ => false,
            },
            None => false,
        },
{
    let delta = get_spec(c, "delta"@);
    let tcs = items_under(delta, "tool_calls"@);
    assert forall|i: int| 0 <= i < d.tool_calls@.len() implies match get_spec(c, "delta"@) {
            Some(x) => match get_spec(x, "tool_calls"@) {
                Some(Json::Array(a)) => (#[trigger] d.tool_calls@[i]).index == match uint_member(a@[i], "index"@) { Some(k) => k, None => 0 }
                    && opt_view(d.tool_calls@[i].id) == text_member(a@[i], "id"@),
                _ => false,
            },
            None => false,
        } by {
        assert(tool_delta_ok(tcs[i], d.tool_calls@[i]));
        lemma_tool_delta_members(tcs[i], d.tool_calls@[i]);
    }
}

} // verus!
