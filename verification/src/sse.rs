//! Decoding of a streamed chat completion (server-sent events).
//!
//! The response body arrives in arbitrary pieces. Complete lines are cut out
//! of the accumulated text; `data: ` lines carry JSON chunks, `:` lines are
//! comments, and `data: [DONE]` stops the scan of what has arrived so far.
//! Text deltas are forwarded as they come; tool calls arrive in fragments keyed
//! by an index and are assembled once the stream ends.
use vstd::prelude::*;
use vstd::string::StringExecFns;

use crate::json::{empty_json_object, json_text_of, json_text_parses, json_to_string, json_value_of, parse_json};
use crate::llm::{PendingToolCall, ToolCall, ToolCallStatus};
use crate::sanitize::{chars_of, find_char, find_char_exec, lemma_find_char, string_of_range, trim, trim_range};

verus! {

// ============================================================================
// Lines
// ============================================================================

/// `s` without its trailing carriage returns.
pub open spec fn trim_end_cr(s: Seq<char>) -> Seq<char>
    decreases s.len(),
{
    if s.len() > 0 && s[s.len() - 1] == '\r' {
        trim_end_cr(s.subrange(0, s.len() - 1))
    } else {
        s
    }
}

/// Whether `s` begins with `prefix`.
pub open spec fn starts_with(s: Seq<char>, prefix: Seq<char>) -> bool {
    prefix.len() <= s.len() && s.subrange(0, prefix.len() as int) == prefix
}

/// The marker of a data line.
pub open spec fn data_marker() -> Seq<char> {
    seq!['d', 'a', 't', 'a', ':', ' ']
}

/// The payload that ends a completion stream.
pub open spec fn done_marker() -> Seq<char> {
    seq!['[', 'D', 'O', 'N', 'E', ']']
}

/// Scan of the complete lines of `buf` from `pos`: the data payloads found (trimmed),
/// and the position where scanning stopped (after `[DONE]`, or at the start of the
/// first incomplete line).
pub open spec fn scan_lines(buf: Seq<char>, pos: int) -> (Seq<Seq<char>>, int)
    decreases buf.len() - pos,
    when 0 <= pos <= buf.len()
{
    match find_char(buf, '\n', pos) {
        None => (Seq::empty(), pos),
        Some(nl) => {
            proof {
                lemma_find_char(buf, '\n', pos);
            }
            let line = trim_end_cr(buf.subrange(pos, nl));
            if line.len() == 0 || line[0] == ':' || !starts_with(line, data_marker()) {
                scan_lines(buf, nl + 1)
            } else {
                let data = trim(line.subrange(6, line.len() as int));
                if data == done_marker() {
                    (Seq::empty(), nl + 1)
                } else {
                    let rest = scan_lines(buf, nl + 1);
                    (seq![data] + rest.0, rest.1)
                }
            }
        },
    }
}

proof fn lemma_scan_bounds(buf: Seq<char>, pos: int)
    requires
        0 <= pos <= buf.len(),
    ensures
        pos <= scan_lines(buf, pos).1 <= buf.len(),
    decreases buf.len() - pos,
{
    lemma_find_char(buf, '\n', pos);
    match find_char(buf, '\n', pos) {
        None => {},
        Some(nl) => {
            lemma_scan_bounds(buf, nl + 1);
        },
    }
}

/// Whether the scan of `buf` from `pos` stops at a `[DONE]` payload.
pub open spec fn scan_hits_done(buf: Seq<char>, pos: int) -> bool
    decreases buf.len() - pos,
    when 0 <= pos <= buf.len()
{
    match find_char(buf, '\n', pos) {
        None => false,
        Some(nl) => {
            proof {
                lemma_find_char(buf, '\n', pos);
            }
            let line = trim_end_cr(buf.subrange(pos, nl));
            if line.len() == 0 || line[0] == ':' || !starts_with(line, data_marker()) {
                scan_hits_done(buf, nl + 1)
            } else {
                let data = trim(line.subrange(6, line.len() as int));
                if data == done_marker() {
                    true
                } else {
                    scan_hits_done(buf, nl + 1)
                }
            }
        },
    }
}

proof fn lemma_find_char_prefix(s: Seq<char>, w: Seq<char>, c: char, i: int)
    requires
        find_char(s, c, i) is Some,
    ensures
        find_char(s + w, c, i) == find_char(s, c, i),
    decreases s.len() - i,
{
    if i < 0 || i >= s.len() {
    } else if s[i] == c {
        assert((s + w)[i] == c);
    } else {
        assert((s + w)[i] == s[i]);
        lemma_find_char_prefix(s, w, c, i + 1);
    }
}

proof fn lemma_find_char_shift(s: Seq<char>, c: char, p: int, k: int)
    requires
        0 <= p <= s.len(),
        0 <= k,
    ensures
        find_char(s, c, p + k) == match find_char(s.subrange(p, s.len() as int), c, k) {
            Some(j) => Some(j + p),
            None => None::<int>,
        },
    decreases s.len() - p - k,
{
    let t = s.subrange(p, s.len() as int);
    if p + k >= s.len() {
    } else {
        assert(t[k] == s[p + k]);
        if s[p + k] != c {
            lemma_find_char_shift(s, c, p, k + 1);
        }
    }
}

/// Scanning a longer text from `pos` first finds what the scan of `s` finds, as long
/// as that scan did not stop at `[DONE]`, then continues from where it stopped.
proof fn lemma_scan_extend(s: Seq<char>, w: Seq<char>, pos: int)
    requires
        0 <= pos <= s.len(),
        !scan_hits_done(s, pos),
    ensures
        ({
            let a = scan_lines(s, pos);
            let b = scan_lines(s + w, pos);
            let c = scan_lines(s + w, a.1);
            &&& b.0 == a.0 + c.0
            &&& b.1 == c.1
        }),
    decreases s.len() - pos,
{
    lemma_find_char(s, '\n', pos);
    lemma_scan_bounds(s, pos);
    match find_char(s, '\n', pos) {
        None => {
            let a = scan_lines(s, pos);
            assert(a.0 + scan_lines(s + w, pos).0 =~= scan_lines(s + w, pos).0);
        },
        Some(nl) => {
            lemma_find_char_prefix(s, w, '\n', pos);
            assert((s + w).subrange(pos, nl) =~= s.subrange(pos, nl));
            lemma_scan_extend(s, w, nl + 1);
            lemma_scan_bounds(s, nl + 1);
            let line = trim_end_cr(s.subrange(pos, nl));
            if line.len() == 0 || line[0] == ':' || !starts_with(line, data_marker()) {
            } else {
                let data = trim(line.subrange(6, line.len() as int));
                let a1 = scan_lines(s, nl + 1);
                let b1 = scan_lines(s + w, nl + 1);
                let c = scan_lines(s + w, a1.1);
                assert(seq![data] + b1.0 =~= (seq![data] + a1.0) + c.0);
            }
        },
    }
}

/// Scanning `s` from `p + k` is scanning `s[p..]` from `k`, with positions shifted by `p`.
proof fn lemma_scan_shift(s: Seq<char>, p: int, k: int)
    requires
        0 <= p <= s.len(),
        0 <= k <= s.len() - p,
    ensures
        ({
            let t = s.subrange(p, s.len() as int);
            &&& scan_lines(s, p + k).0 == scan_lines(t, k).0
            &&& scan_lines(s, p + k).1 == scan_lines(t, k).1 + p
        }),
    decreases s.len() - p - k,
{
    let t = s.subrange(p, s.len() as int);
    lemma_find_char_shift(s, '\n', p, k);
    lemma_find_char(t, '\n', k);
    match find_char(t, '\n', k) {
        None => {},
        Some(j) => {
            assert(s.subrange(p + k, j + p) =~= t.subrange(k, j));
            lemma_scan_shift(s, p, j + 1);
        },
    }
}

/// Feeding the response body in two pieces yields the same payloads, and leaves the
/// same text pending, as feeding both pieces at once, unless the first piece
/// completed a `[DONE]` line (which stops the scan until more text arrives).
pub proof fn law_feed_in_pieces(pending: Seq<char>, x: Seq<char>, y: Seq<char>)
    requires
        !scan_hits_done(pending + x, 0),
    ensures
        ({
            let b1 = pending + x;
            let s1 = scan_lines(b1, 0);
            let b2 = b1.subrange(s1.1, b1.len() as int) + y;
            let s2 = scan_lines(b2, 0);
            let b = pending + x + y;
            let s = scan_lines(b, 0);
            &&& s.0 == s1.0 + s2.0
            &&& b.subrange(s.1, b.len() as int) == b2.subrange(s2.1, b2.len() as int)
        }),
{
    let b1 = pending + x;
    let b = pending + x + y;
    lemma_scan_bounds(b1, 0);
    let stop1 = scan_lines(b1, 0).1;
    let b2 = b1.subrange(stop1, b1.len() as int) + y;
    lemma_scan_extend(b1, y, 0);
    lemma_scan_shift(b, stop1, 0);
    assert(b.subrange(stop1, b.len() as int) =~= b2);
    lemma_scan_bounds(b2, 0);
    let s2 = scan_lines(b2, 0);
    assert(b.subrange(scan_lines(b, 0).1, b.len() as int) =~= b2.subrange(s2.1, b2.len() as int));
}

/// The texts held by a sequence of strings.
pub open spec fn texts_of(strings: Seq<String>) -> Seq<Seq<char>> {
    strings.map_values(|s: String| s@)
}

/// Whether `buf[lo..hi]` equals `word`.
fn range_equals(buf: &Vec<char>, lo: usize, hi: usize, word: &Vec<char>) -> (r: bool)
    requires
        lo <= hi <= buf.len(),
    ensures
        r == (buf@.subrange(lo as int, hi as int) == word@),
{
    if hi - lo != word.len() {
        assert(buf@.subrange(lo as int, hi as int).len() != word@.len());
        return false;
    }
    let mut i: usize = 0;
    while i < word.len()
        invariant
            hi - lo == word.len(),
            lo <= hi <= buf.len(),
            i <= word.len(),
            forall|k: int| 0 <= k < i ==> buf@[lo + k] == word@[k],
        decreases word.len() - i,
    {
        if buf[lo + i] != word[i] {
            assert(buf@.subrange(lo as int, hi as int)[i as int] != word@[i as int]);
            return false;
        }
        i = i + 1;
    }
    assert(buf@.subrange(lo as int, hi as int) =~= word@);
    true
}

fn data_marker_exec() -> (r: Vec<char>)
    ensures
        r@ == data_marker(),
{
    let r = vec!['d', 'a', 't', 'a', ':', ' '];
    assert(r@ =~= data_marker());
    r
}

fn done_marker_exec() -> (r: Vec<char>)
    ensures
        r@ == done_marker(),
{
    let r = vec!['[', 'D', 'O', 'N', 'E', ']'];
    assert(r@ =~= done_marker());
    r
}

// ============================================================================
// Chunks
// ============================================================================

/// The function part of a streamed tool-call fragment.
#[derive(Debug, Clone)]
pub struct StreamFunction {
    pub name: Option<String>,
    pub arguments: Option<String>,
}

/// A streamed fragment of a tool call.
#[derive(Debug, Clone)]
pub struct StreamToolCall {
    pub index: u32,
    pub id: Option<String>,
    pub function: Option<StreamFunction>,
}

/// What a choice adds to the response.
#[derive(Debug, Clone)]
pub struct StreamDelta {
    pub content: Option<String>,
    pub tool_calls: Option<Vec<StreamToolCall>>,
}

/// One choice of a streamed chunk.
#[derive(Debug, Clone)]
pub struct StreamChoice {
    pub delta: StreamDelta,
}

/// One JSON chunk of a streamed chat completion.
#[derive(Debug, Clone)]
pub struct StreamChunk {
    pub choices: Vec<StreamChoice>,
}

/// The text held by an optional string (empty when absent).
pub open spec fn opt_text(s: Option<String>) -> Seq<char> {
    match s {
        Some(t) => t@,
        None => Seq::empty(),
    }
}

/// Whether a text delta is shown to the listener: non-empty and not a channel marker.
pub open spec fn is_visible_text(t: Seq<char>) -> bool {
    &&& t.len() > 0
    &&& !starts_with(t, seq!['<', '|', 'c', 'h', 'a', 'n', 'n', 'e', 'l'])
    &&& !starts_with(t, seq!['<', 'c', 'h', 'a', 'n', 'n', 'e', 'l'])
}

/// The text a choice contributes to the listener, if any.
pub open spec fn visible_text(choice: StreamChoice) -> Seq<Seq<char>> {
    match choice.delta.content {
        Some(t) => if is_visible_text(t@) {
            seq![t@]
        } else {
            Seq::empty()
        },
        None => Seq::empty(),
    }
}

/// The texts forwarded for the first `n` choices of a chunk, in order.
pub open spec fn visible_texts(choices: Seq<StreamChoice>, n: int) -> Seq<Seq<char>>
    decreases n,
{
    if n <= 0 {
        Seq::empty()
    } else {
        visible_texts(choices, n - 1) + visible_text(choices[n - 1])
    }
}

/// The fragments of one tool call gathered so far.
#[derive(Debug, Clone)]
pub struct ToolCallFragments {
    pub index: u32,
    pub call_id: String,
    pub tool_name: String,
    pub arguments: String,
}

/// Gathered fragments: the index, then the id, name and argument texts.
pub type FragmentsModel = (u32, Seq<char>, Seq<char>, Seq<char>);

impl View for ToolCallFragments {
    type V = FragmentsModel;

    open spec fn view(&self) -> FragmentsModel {
        (self.index, self.call_id@, self.tool_name@, self.arguments@)
    }
}

/// Position of the entry for `index`, if any.
pub open spec fn position_of(entries: Seq<FragmentsModel>, index: u32, from: int) -> Option<int>
    decreases entries.len() - from,
{
    if from < 0 || from >= entries.len() {
        None
    } else if entries[from].0 == index {
        Some(from)
    } else {
        position_of(entries, index, from + 1)
    }
}

proof fn lemma_position_of(entries: Seq<FragmentsModel>, index: u32, from: int)
    ensures
        match position_of(entries, index, from) {
            Some(p) => 0 <= from <= p < entries.len() && entries[p].0 == index,
            None => forall|k: int| 0 <= from <= k < entries.len() ==> #[trigger] entries[k].0 != index,
        },
    decreases entries.len() - from,
{
    if from < 0 || from >= entries.len() {
    } else if entries[from].0 == index {
    } else {
        lemma_position_of(entries, index, from + 1);
    }
}

/// An entry with one more fragment appended to each of its texts.
pub open spec fn extend_fragments(e: FragmentsModel, frag: StreamToolCall) -> FragmentsModel {
    let name = match frag.function {
        Some(f) => opt_text(f.name),
        None => Seq::empty(),
    };
    let args = match frag.function {
        Some(f) => opt_text(f.arguments),
        None => Seq::empty(),
    };
    (e.0, e.1 + opt_text(frag.id), e.2 + name, e.3 + args)
}

/// The entries once a fragment is taken in: added to the entry of its index, which
/// is created (empty, at the end) when the index is new.
pub open spec fn absorb(entries: Seq<FragmentsModel>, frag: StreamToolCall) -> Seq<FragmentsModel> {
    match position_of(entries, frag.index, 0) {
        Some(p) => entries.update(p, extend_fragments(entries[p], frag)),
        None => entries.push(
            extend_fragments((frag.index, Seq::empty(), Seq::empty(), Seq::empty()), frag),
        ),
    }
}

/// The entries once the first `n` fragments of `frags` are taken in.
pub open spec fn absorb_all(entries: Seq<FragmentsModel>, frags: Seq<StreamToolCall>, n: int) -> Seq<
    FragmentsModel,
>
    decreases n,
{
    if n <= 0 {
        entries
    } else {
        absorb(absorb_all(entries, frags, n - 1), frags[n - 1])
    }
}

/// The entry that the fragments with index `idx` among the first `n` add up to.
pub open spec fn fragments_for(frags: Seq<StreamToolCall>, n: int, idx: u32) -> FragmentsModel
    decreases n,
{
    if n <= 0 {
        (idx, Seq::empty(), Seq::empty(), Seq::empty())
    } else if frags[n - 1].index == idx {
        extend_fragments(fragments_for(frags, n - 1, idx), frags[n - 1])
    } else {
        fragments_for(frags, n - 1, idx)
    }
}

/// Which text deltas reach the listener: taking in one more choice forwards its text
/// delta exactly when that delta is non-empty and starts with neither `<|channel` nor
/// `<channel`, after the texts already forwarded; a choice without text, or with a text
/// that is not forwarded, adds nothing. In particular a delta whose first character is not
/// `<` (such as any one-character delta other than `<`) is always forwarded.
pub proof fn law_visible_deltas(choices: Seq<StreamChoice>, k: int)
    requires
        0 <= k < choices.len(),
    ensures
        ({
            let before = visible_texts(choices, k);
            let after = visible_texts(choices, k + 1);
            &&& choices[k].delta.content is None ==> after == before
            &&& choices[k].delta.content matches Some(t) ==> {
                let shown = t@.len() > 0 && !(t@.len() >= 9 && t@.subrange(0, 9) == seq![
                    '<',
                    '|',
                    'c',
                    'h',
                    'a',
                    'n',
                    'n',
                    'e',
                    'l',
                ]) && !(t@.len() >= 8 && t@.subrange(0, 8) == seq![
                    '<',
                    'c',
                    'h',
                    'a',
                    'n',
                    'n',
                    'e',
                    'l',
                ]);
                &&& shown ==> after == before.push(t@)
                &&& !shown ==> after == before
                &&& t@.len() > 0 && t@[0] != '<' ==> after == before.push(t@)
            }
        }),
{
    let c = choices[k];
    match c.delta.content {
        Some(t) => {
            if t@.len() > 0 && t@[0] != '<' {
                if t@.len() >= 9 {
                    assert(t@.subrange(0, 9)[0] == t@[0]);
                }
                if t@.len() >= 8 {
                    assert(t@.subrange(0, 8)[0] == t@[0]);
                }
            }
            assert(visible_texts(choices, k) + seq![t@] =~= visible_texts(choices, k).push(t@));
            assert(visible_texts(choices, k) + Seq::<Seq<char>>::empty() =~= visible_texts(choices, k));
        },
        None => {
            assert(visible_texts(choices, k) + Seq::<Seq<char>>::empty() =~= visible_texts(choices, k));
        },
    }
}

/// Tool-call fragments are gathered by index: after taking in the first `n`
/// fragments, there is one entry per index seen, and each entry holds the
/// concatenation, in arrival order, of the ids, names and arguments of the
/// fragments with its index, whatever other indices were interleaved.
pub proof fn law_fragments_gathered_by_index(frags: Seq<StreamToolCall>, n: int)
    requires
        0 <= n <= frags.len(),
    ensures
        ({
            let r = absorb_all(Seq::empty(), frags, n);
            &&& forall|p: int, q: int| 0 <= p < q < r.len() ==> #[trigger] r[p].0 != #[trigger] r[q].0
            &&& forall|p: int| 0 <= p < r.len() ==> #[trigger] r[p] == fragments_for(frags, n, r[p].0)
            &&& forall|k: int| 0 <= k < n ==> exists|p: int| 0 <= p < r.len() && #[trigger] r[p].0
                == #[trigger] frags[k].index
        }),
    decreases n,
{
    if n > 0 {
        law_fragments_gathered_by_index(frags, n - 1);
        let prev = absorb_all(Seq::empty(), frags, n - 1);
        let f = frags[n - 1];
        let r = absorb_all(Seq::empty(), frags, n);
        assert(r == absorb(prev, f));
        lemma_position_of(prev, f.index, 0);
        match position_of(prev, f.index, 0) {
            Some(q) => {
                assert(r == prev.update(q, extend_fragments(prev[q], f)));
                assert forall|p: int| 0 <= p < r.len() implies #[trigger] r[p] == fragments_for(
                    frags,
                    n,
                    r[p].0,
                ) by {
                    if p == q {
                        assert(prev[q] == fragments_for(frags, n - 1, prev[q].0));
                    } else {
                        assert(prev[p] == fragments_for(frags, n - 1, prev[p].0));
                        assert(prev[p].0 != prev[q].0);
                    }
                }
                assert forall|k: int| 0 <= k < n implies exists|p: int|
                    0 <= p < r.len() && #[trigger] r[p].0 == #[trigger] frags[k].index by {
                    if k == n - 1 {
                        assert(r[q].0 == frags[k].index);
                    } else {
                        let p = choose|p: int| 0 <= p < prev.len() && #[trigger] prev[p].0 == #[trigger] frags[k].index;
                        assert(r[p].0 == frags[k].index);
                    }
                }
            },
            None => {
                let fresh: FragmentsModel = (f.index, Seq::empty(), Seq::empty(), Seq::empty());
                assert(r == prev.push(extend_fragments(fresh, f)));
                assert(fragments_for(frags, n - 1, f.index) == fresh) by {
                    lemma_fragments_for_unseen(frags, n - 1, f.index);
                }
                assert forall|p: int| 0 <= p < r.len() implies #[trigger] r[p] == fragments_for(
                    frags,
                    n,
                    r[p].0,
                ) by {
                    if p < prev.len() {
                        assert(prev[p] == fragments_for(frags, n - 1, prev[p].0));
                        assert(prev[p].0 != f.index);
                    }
                }
                assert forall|k: int| 0 <= k < n implies exists|p: int|
                    0 <= p < r.len() && #[trigger] r[p].0 == #[trigger] frags[k].index by {
                    if k == n - 1 {
                        assert(r[prev.len() as int].0 == frags[k].index);
                    } else {
                        let p = choose|p: int| 0 <= p < prev.len() && #[trigger] prev[p].0 == #[trigger] frags[k].index;
                        assert(r[p].0 == frags[k].index);
                    }
                }
            },
        }
    }
}

/// An index that no fragment among the first `n` carries adds up to an empty entry.
proof fn lemma_fragments_for_unseen(frags: Seq<StreamToolCall>, n: int, idx: u32)
    requires
        0 <= n <= frags.len(),
        forall|p: int| 0 <= p < absorb_all(Seq::empty(), frags, n).len() ==> #[trigger] absorb_all(
            Seq::empty(),
            frags,
            n,
        )[p].0 != idx,
        forall|k: int| 0 <= k < n ==> exists|p: int|
            0 <= p < absorb_all(Seq::empty(), frags, n).len() && #[trigger] absorb_all(
                Seq::empty(),
                frags,
                n,
            )[p].0 == #[trigger] frags[k].index,
    ensures
        fragments_for(frags, n, idx) == (idx, Seq::<char>::empty(), Seq::<char>::empty(), Seq::<
            char,
        >::empty()),
{
    assert forall|k: int| 0 <= k < n implies #[trigger] frags[k].index != idx by {
        let r = absorb_all(Seq::empty(), frags, n);
        let p = choose|p: int| 0 <= p < r.len() && #[trigger] r[p].0 == #[trigger] frags[k].index;
    }
    lemma_fragments_for_none(frags, n, idx);
}

proof fn lemma_fragments_for_none(frags: Seq<StreamToolCall>, n: int, idx: u32)
    requires
        0 <= n <= frags.len(),
        forall|k: int| 0 <= k < n ==> #[trigger] frags[k].index != idx,
    ensures
        fragments_for(frags, n, idx) == (idx, Seq::<char>::empty(), Seq::<char>::empty(), Seq::<
            char,
        >::empty()),
    decreases n,
{
    if n > 0 {
        lemma_fragments_for_none(frags, n - 1, idx);
    }
}

/// The tool-call fragments carried by a choice.
pub open spec fn choice_fragments(choice: StreamChoice) -> Seq<StreamToolCall> {
    match choice.delta.tool_calls {
        Some(v) => v@,
        None => Seq::empty(),
    }
}

/// The entries once the fragments of the first `n` choices are taken in, in order.
pub open spec fn absorb_choices(entries: Seq<FragmentsModel>, choices: Seq<StreamChoice>, n: int) -> Seq<
    FragmentsModel,
>
    decreases n,
{
    if n <= 0 {
        entries
    } else {
        let before = absorb_choices(entries, choices, n - 1);
        let frags = choice_fragments(choices[n - 1]);
        absorb_all(before, frags, frags.len() as int)
    }
}

/// The model of gathered entries.
pub open spec fn fragments_model(v: Seq<ToolCallFragments>) -> Seq<FragmentsModel> {
    v.map_values(|e: ToolCallFragments| e@)
}

/// The arguments of a tool call: the JSON value of its argument text, or an empty
/// object when serde_json rejects that text.
pub open spec fn parsed_arguments(text: Seq<char>) -> serde_json::Value {
    if json_text_parses(text) {
        json_value_of(text)
    } else {
        json_value_of("{}"@)
    }
}

/// Whether an entry names both its call and its tool, so that it becomes a tool call.
pub open spec fn is_complete(e: FragmentsModel) -> bool {
    e.1.len() > 0 && e.2.len() > 0
}

/// The complete entries among the first `n`, in order.
pub open spec fn complete_entries(entries: Seq<FragmentsModel>, n: int) -> Seq<FragmentsModel>
    decreases n,
{
    if n <= 0 {
        Seq::empty()
    } else if is_complete(entries[n - 1]) {
        complete_entries(entries, n - 1).push(entries[n - 1])
    } else {
        complete_entries(entries, n - 1)
    }
}

// ============================================================================
// The stream state
// ============================================================================

/// State of the decoding of one streamed completion.
pub struct CompletionStream {
    line_buf: Vec<char>,
    tool_calls: Vec<ToolCallFragments>,
}

fn opt_string_text(s: &Option<String>) -> (r: &str)
    ensures
        r@ == opt_text(*s),
{
    match s {
        Some(t) => t.as_str(),
        None => {
            proof {
                reveal_strlit("");
            }
            ""
        },
    }
}

impl CompletionStream {
    /// The text received but not scanned yet.
    pub closed spec fn pending_text(&self) -> Seq<char> {
        self.line_buf@
    }

    /// The tool-call entries gathered so far, in order of first appearance.
    pub closed spec fn gathered(&self) -> Seq<FragmentsModel> {
        fragments_model(self.tool_calls@)
    }

    pub fn new() -> (r: Self)
        ensures
            r.pending_text() == Seq::<char>::empty(),
            r.gathered() == Seq::<FragmentsModel>::empty(),
    {
        let r = CompletionStream { line_buf: Vec::new(), tool_calls: Vec::new() };
        assert(r.gathered() =~= Seq::<FragmentsModel>::empty());
        r
    }

    /// Take in a piece of the response body; returns the data payloads of the
    /// complete lines, in order, up to a `[DONE]` payload if one comes.
    pub fn feed(&mut self, text: &str) -> (payloads: Vec<String>)
        ensures
            ({
                let buf = old(self).pending_text() + text@;
                let scan = scan_lines(buf, 0);
                &&& texts_of(payloads@) == scan.0
                &&& final(self).pending_text() == buf.subrange(scan.1, buf.len() as int)
            }),
            final(self).gathered() == old(self).gathered(),
    {
        let mut buf = Vec::new();
        std::mem::swap(&mut buf, &mut self.line_buf);
        let mut extra = chars_of(text);
        buf.append(&mut extra);
        let ghost whole = buf@;
        assert(whole == old(self).pending_text() + text@);
        let data = data_marker_exec();
        let done = done_marker_exec();
        let mut payloads: Vec<String> = Vec::new();
        let mut pos: usize = 0;
        proof {
            lemma_scan_bounds(whole, 0);
        }
        loop
            invariant_except_break
                texts_of(payloads@) + scan_lines(whole, pos as int).0 == scan_lines(whole, 0).0,
                scan_lines(whole, pos as int).1 == scan_lines(whole, 0).1,
            invariant
                buf@ == whole,
                data@ == data_marker(),
                done@ == done_marker(),
                pos <= buf.len(),
                self.tool_calls == old(self).tool_calls,
            ensures
                texts_of(payloads@) == scan_lines(whole, 0).0,
                pos == scan_lines(whole, 0).1,
            decreases buf.len() - pos,
        {
            proof {
                lemma_find_char(whole, '\n', pos as int);
            }
            let ghost before = texts_of(payloads@);
            match find_char_exec(&buf, '\n', pos) {
                None => {
                    assert(texts_of(payloads@) =~= scan_lines(whole, 0).0);
                    break;
                },
                Some(nl) => {
                    let mut end = nl;
                    while end > pos && buf[end - 1] == '\r'
                        invariant
                            buf@ == whole,
                            pos <= end <= nl < buf.len(),
                            trim_end_cr(whole.subrange(pos as int, nl as int)) == trim_end_cr(
                                whole.subrange(pos as int, end as int),
                            ),
                        decreases end - pos,
                    {
                        assert(whole.subrange(pos as int, end as int).subrange(0, end - pos - 1)
                            =~= whole.subrange(pos as int, end - 1));
                        end = end - 1;
                    }
                    assert(trim_end_cr(whole.subrange(pos as int, end as int)) == whole.subrange(
                        pos as int,
                        end as int,
                    ));
                    let ghost line = whole.subrange(pos as int, end as int);
                    let is_data = end - pos >= 6 && buf[pos] != ':' && range_equals(
                        &buf,
                        pos,
                        pos + 6,
                        &data,
                    );
                    assert(end - pos >= 6 ==> line.subrange(0, 6) =~= whole.subrange(
                        pos as int,
                        pos + 6,
                    ));
                    if !is_data {
                        pos = nl + 1;
                    } else {
                        let (a, b) = trim_range(&buf, pos + 6, end);
                        assert(line.subrange(6, line.len() as int) =~= whole.subrange(
                            pos + 6,
                            end as int,
                        ));
                        if range_equals(&buf, a, b, &done) {
                            assert(texts_of(payloads@) =~= scan_lines(whole, 0).0);
                            pos = nl + 1;
                            break;
                        }
                        let payload = string_of_range(&buf, a, b);
                        payloads.push(payload);
                        assert(texts_of(payloads@) =~= before.push(payload@));
                        pos = nl + 1;
                    }
                },
            }
        }
        proof {
            lemma_scan_bounds(whole, 0);
        }
        let mut rest: Vec<char> = Vec::new();
        let mut i = pos;
        while i < buf.len()
            invariant
                buf@ == whole,
                pos <= i <= buf.len(),
                rest@ == whole.subrange(pos as int, i as int),
            decreases buf.len() - i,
        {
            rest.push(buf[i]);
            assert(whole.subrange(pos as int, i + 1) =~= whole.subrange(pos as int, i as int).push(
                whole[i as int],
            ));
            i = i + 1;
        }
        self.line_buf = rest;
        payloads
    }

    /// Take in one tool-call fragment.
    fn absorb_fragment(&mut self, frag: &StreamToolCall)
        ensures
            final(self).gathered() == absorb(old(self).gathered(), *frag),
            final(self).pending_text() == old(self).pending_text(),
    {
        let ghost model = self.gathered();
        let n = self.tool_calls.len();
        let mut i: usize = 0;
        while i < n && self.tool_calls[i].index != frag.index
            invariant
                i <= n == self.tool_calls.len(),
                model == fragments_model(self.tool_calls@),
                position_of(model, frag.index, 0) == position_of(model, frag.index, i as int),
            decreases n - i,
        {
            i = i + 1;
        }
        if i == n {
            self.tool_calls.push(
                ToolCallFragments {
                    index: frag.index,
                    call_id: String::new(),
                    tool_name: String::new(),
                    arguments: String::new(),
                },
            );
        }
        let ghost placed = fragments_model(self.tool_calls@);
        assert(placed =~= if i < n {
            model
        } else {
            model.push((frag.index, Seq::<char>::empty(), Seq::<char>::empty(), Seq::<char>::empty()))
        });
        let current = &self.tool_calls[i];
        let mut call_id = current.call_id.clone();
        let mut tool_name = current.tool_name.clone();
        let mut arguments = current.arguments.clone();
        call_id.append(opt_string_text(&frag.id));
        match &frag.function {
            Some(f) => {
                tool_name.append(opt_string_text(&f.name));
                arguments.append(opt_string_text(&f.arguments));
            },
            None => {
                assert(tool_name@ =~= tool_name@ + Seq::<char>::empty());
                assert(arguments@ =~= arguments@ + Seq::<char>::empty());
            },
        }
        let e = ToolCallFragments { index: current.index, call_id, tool_name, arguments };
        assert(e@ == extend_fragments(placed[i as int], *frag));
        self.tool_calls.set(i, e);
        assert(self.gathered() =~= placed.update(i as int, e@));
        assert(self.gathered() =~= absorb(model, *frag));
    }

    /// Take in one decoded chunk; returns the texts to forward to the listener, in order.
    pub fn on_chunk(&mut self, chunk: &StreamChunk) -> (texts: Vec<String>)
        ensures
            texts_of(texts@) == visible_texts(chunk.choices@, chunk.choices@.len() as int),
            final(self).gathered() == absorb_choices(
                old(self).gathered(),
                chunk.choices@,
                chunk.choices@.len() as int,
            ),
            final(self).pending_text() == old(self).pending_text(),
    {
        let mut texts: Vec<String> = Vec::new();
        let mut i: usize = 0;
        while i < chunk.choices.len()
            invariant
                i <= chunk.choices.len(),
                texts_of(texts@) == visible_texts(chunk.choices@, i as int),
                self.gathered() == absorb_choices(old(self).gathered(), chunk.choices@, i as int),
                self.pending_text() == old(self).pending_text(),
            decreases chunk.choices.len() - i,
        {
            let choice = &chunk.choices[i];
            let ghost before = texts_of(texts@);
            match &choice.delta.content {
                Some(c) => {
                    if is_visible(c) {
                        texts.push(c.clone());
                        assert(texts_of(texts@) =~= before + visible_text(*choice));
                    } else {
                        assert(texts_of(texts@) =~= before + visible_text(*choice));
                    }
                },
                None => {
                    assert(texts_of(texts@) =~= before + visible_text(*choice));
                },
            }
            let ghost start = self.gathered();
            match &choice.delta.tool_calls {
                Some(frags) => {
                    let mut j: usize = 0;
                    while j < frags.len()
                        invariant
                            j <= frags.len(),
                            self.gathered() == absorb_all(start, frags@, j as int),
                            self.pending_text() == old(self).pending_text(),
                        decreases frags.len() - j,
                    {
                        self.absorb_fragment(&frags[j]);
                        j = j + 1;
                    }
                },
                None => {},
            }
            i = i + 1;
        }
        texts
    }

    /// End of the stream: the gathered tool calls that name both their call and their
    /// tool, in order of first appearance, each as the call handed to the client and
    /// the call tracked by the session (status `New`). The arguments are parsed as JSON
    /// (an empty object when serde_json rejects them), and the tracked call replays
    /// them as the compact JSON text of that value.
    pub fn finish(self) -> (calls: Vec<(ToolCall, PendingToolCall)>)
        ensures
            ({
                let done = complete_entries(self.gathered(), self.gathered().len() as int);
                &&& calls@.len() == done.len()
                &&& forall|k: int|
                    0 <= k < calls@.len() ==> {
                        &&& (#[trigger] calls@[k]).0.call_id@ == done[k].1
                        &&& calls@[k].0.tool_name@ == done[k].2
                        &&& calls@[k].1.call_id@ == done[k].1
                        &&& calls@[k].1.tool_name@ == done[k].2
                        &&& calls@[k].1.status == ToolCallStatus::New
                        &&& calls@[k].0.args == parsed_arguments(done[k].3)
                        &&& calls@[k].1.arguments@ == json_text_of(calls@[k].0.args)
                    }
            }),
    {
        let ghost model = self.gathered();
        let mut calls: Vec<(ToolCall, PendingToolCall)> = Vec::new();
        let mut i: usize = 0;
        while i < self.tool_calls.len()
            invariant
                i <= self.tool_calls.len(),
                model == fragments_model(self.tool_calls@),
                ({
                    let done = complete_entries(model, i as int);
                    &&& calls@.len() == done.len()
                    &&& forall|k: int|
                        0 <= k < calls@.len() ==> {
                            &&& (#[trigger] calls@[k]).0.call_id@ == done[k].1
                            &&& calls@[k].0.tool_name@ == done[k].2
                            &&& calls@[k].1.call_id@ == done[k].1
                            &&& calls@[k].1.tool_name@ == done[k].2
                            &&& calls@[k].1.status == ToolCallStatus::New
                            &&& calls@[k].0.args == parsed_arguments(done[k].3)
                            &&& calls@[k].1.arguments@ == json_text_of(calls@[k].0.args)
                        }
                }),
            decreases self.tool_calls.len() - i,
        {
            let e = &self.tool_calls[i];
            if !e.call_id.as_str().is_empty() && !e.tool_name.as_str().is_empty() {
                let args = match parse_json(e.arguments.as_str()) {
                    Ok(v) => v,
                    Err(_) => empty_json_object(),
                };
                let arguments = json_to_string(&args);
                let pending = PendingToolCall {
                    call_id: e.call_id.clone(),
                    tool_name: e.tool_name.clone(),
                    arguments,
                    status: ToolCallStatus::New,
                };
                let call = ToolCall {
                    call_id: e.call_id.clone(),
                    tool_name: e.tool_name.clone(),
                    args,
                };
                calls.push((call, pending));
            }
            i = i + 1;
        }
        calls
    }
}

/// Whether a text delta is forwarded (see [`is_visible_text`]).
fn is_visible(t: &String) -> (r: bool)
    ensures
        r == is_visible_text(t@),
{
    let chars = chars_of(t.as_str());
    if chars.len() == 0 {
        return false;
    }
    let long = vec!['<', '|', 'c', 'h', 'a', 'n', 'n', 'e', 'l'];
    let short = vec!['<', 'c', 'h', 'a', 'n', 'n', 'e', 'l'];
    let starts_long = chars.len() >= long.len() && range_equals(&chars, 0, long.len(), &long);
    let starts_short = chars.len() >= short.len() && range_equals(&chars, 0, short.len(), &short);
    assert(long@ =~= seq!['<', '|', 'c', 'h', 'a', 'n', 'n', 'e', 'l']);
    assert(short@ =~= seq!['<', 'c', 'h', 'a', 'n', 'n', 'e', 'l']);
    !starts_long && !starts_short
}

} // verus!
