//! Removal of model control tokens from generated text.
//!
//! Some models emit markers such as `<|start|>`, `<|channel>` or
//! `<channel|>` inside their visible output. Before a generation is fed back
//! into the conversation history those markers are removed in two passes:
//!
//! 1. every `<|` opens a token that ends at the next `|>`, or failing that at
//!    the next `>`;
//! 2. every `<word|>` whose inner part is made of alphanumeric characters and
//!    underscores is removed.
//!
//! Finally, surrounding whitespace is trimmed.
use vstd::prelude::*;

verus! {

// ---------------------------------------------------------------------------
// Character classes (Unicode properties)
// ---------------------------------------------------------------------------

/// Whether `c` has the Unicode `White_Space` property (PropList.txt): the controls
/// U+0009 to U+000D, space, U+0085, no-break space, U+1680, U+2000 to U+200A, the line
/// and paragraph separators, U+202F, U+205F and U+3000.
pub open spec fn unicode_white_space(c: char) -> bool {
    let u = c as u32;
    ||| 0x09 <= u <= 0x0d
    ||| u == 0x20
    ||| u == 0x85
    ||| u == 0xa0
    ||| u == 0x1680
    ||| 0x2000 <= u <= 0x200a
    ||| u == 0x2028
    ||| u == 0x2029
    ||| u == 0x202f
    ||| u == 0x205f
    ||| u == 0x3000
}

/// Whether `c` is alphabetic or numeric in the Unicode sense, as `char::is_alphanumeric`
/// reports it.
pub uninterp spec fn unicode_alphanumeric(c: char) -> bool;

/// An ASCII letter or digit.
pub open spec fn ascii_alphanumeric(c: char) -> bool {
    let u = c as u32;
    ||| 0x30 <= u <= 0x39
    ||| 0x41 <= u <= 0x5a
    ||| 0x61 <= u <= 0x7a
}

/// Whether `c` has the `White_Space` property: the same answer as `char::is_whitespace`,
/// computed from the list of those code points.
fn is_whitespace(c: char) -> (b: bool)
    ensures
        b == unicode_white_space(c),
{
    let u = c as u32;
    (0x09 <= u && u <= 0x0d) || u == 0x20 || u == 0x85 || u == 0xa0 || u == 0x1680 || (0x2000
        <= u && u <= 0x200a) || u == 0x2028 || u == 0x2029 || u == 0x202f || u == 0x205f || u
        == 0x3000
}

/// Calls `char::is_alphanumeric`; the result is the Unicode alphabetic-or-numeric
/// property of `c`, which depends on `c` alone. Among ASCII characters exactly the
/// letters and digits are alphabetic or numeric.
#[verifier::external_body]
fn is_alphanumeric(c: char) -> (b: bool)
    ensures
        b == unicode_alphanumeric(c),
        (c as u32) < 0x80 ==> (b <==> ascii_alphanumeric(c)),
{
    c.is_alphanumeric()
}

/// Calls `String::push`, which appends one character.
#[verifier::external_body]
pub(crate) fn push_char(s: &mut String, c: char)
    ensures
        final(s)@ == old(s)@.push(c),
{
    s.push(c)
}

/// A character that may appear inside a `<word|>` marker.
pub open spec fn is_word_char(c: char) -> bool {
    unicode_alphanumeric(c) || c == '_'
}

// ---------------------------------------------------------------------------
// Searching
// ---------------------------------------------------------------------------

/// First index `j >= i` where `s` holds `a` immediately followed by `b`.
pub open spec fn find_pair(s: Seq<char>, a: char, b: char, i: int) -> Option<int>
    decreases s.len() - i,
{
    if i < 0 || i + 1 >= s.len() {
        None
    } else if s[i] == a && s[i + 1] == b {
        Some(i)
    } else {
        find_pair(s, a, b, i + 1)
    }
}

/// First index `j >= i` where `s` holds `c`.
pub open spec fn find_char(s: Seq<char>, c: char, i: int) -> Option<int>
    decreases s.len() - i,
{
    if i < 0 || i >= s.len() {
        None
    } else if s[i] == c {
        Some(i)
    } else {
        find_char(s, c, i + 1)
    }
}

pub proof fn lemma_find_pair(s: Seq<char>, a: char, b: char, i: int)
    ensures
        match find_pair(s, a, b, i) {
            Some(j) => {
                &&& 0 <= i <= j
                &&& j + 1 < s.len()
                &&& s[j] == a
                &&& s[j + 1] == b
                &&& forall|k: int| i <= k < j ==> !(#[trigger] s[k] == a && s[k + 1] == b)
            },
            None => forall|k: int|
                0 <= i <= k && k + 1 < s.len() ==> !(#[trigger] s[k] == a && s[k + 1] == b),
        },
    decreases s.len() - i,
{
    if i < 0 || i + 1 >= s.len() {
    } else if s[i] == a && s[i + 1] == b {
    } else {
        lemma_find_pair(s, a, b, i + 1);
    }
}

pub proof fn lemma_find_char(s: Seq<char>, c: char, i: int)
    ensures
        match find_char(s, c, i) {
            Some(j) => {
                &&& 0 <= i <= j < s.len()
                &&& s[j] == c
                &&& forall|k: int| i <= k < j ==> s[k] != c
            },
            None => forall|k: int| 0 <= i <= k < s.len() ==> s[k] != c,
        },
    decreases s.len() - i,
{
    if i < 0 || i >= s.len() {
    } else if s[i] == c {
    } else {
        lemma_find_char(s, c, i + 1);
    }
}

pub(crate) fn find_pair_exec(s: &Vec<char>, a: char, b: char, from: usize) -> (r: Option<usize>)
    requires
        from <= s.len(),
    ensures
        match r {
            Some(j) => find_pair(s@, a, b, from as int) == Some(j as int),
            None => find_pair(s@, a, b, from as int) is None,
        },
{
    let mut i = from;
    while i < s.len() && i + 1 < s.len()
        invariant
            from <= i <= s.len(),
            find_pair(s@, a, b, from as int) == find_pair(s@, a, b, i as int),
        decreases s.len() - i,
    {
        if s[i] == a && s[i + 1] == b {
            return Some(i);
        }
        i = i + 1;
    }
    None
}

pub(crate) fn find_char_exec(s: &Vec<char>, c: char, from: usize) -> (r: Option<usize>)
    requires
        from <= s.len(),
    ensures
        match r {
            Some(j) => find_char(s@, c, from as int) == Some(j as int),
            None => find_char(s@, c, from as int) is None,
        },
{
    let mut i = from;
    while i < s.len()
        invariant
            from <= i <= s.len(),
            find_char(s@, c, from as int) == find_char(s@, c, i as int),
        decreases s.len() - i,
    {
        if s[i] == c {
            return Some(i);
        }
        i = i + 1;
    }
    None
}

/// Appends `s[lo..hi]` to `out`.
fn extend_range(out: &mut Vec<char>, s: &Vec<char>, lo: usize, hi: usize)
    requires
        lo <= hi <= s.len(),
    ensures
        final(out)@ == old(out)@ + s@.subrange(lo as int, hi as int),
{
    let mut i = lo;
    while i < hi
        invariant
            lo <= i <= hi <= s.len(),
            out@ == old(out)@ + s@.subrange(lo as int, i as int),
        decreases hi - i,
    {
        out.push(s[i]);
        assert(s@.subrange(lo as int, i + 1) =~= s@.subrange(lo as int, i as int).push(s@[i as int]));
        i = i + 1;
    }
}

// ---------------------------------------------------------------------------
// First pass: `<|...|>` and `<|...>`
// ---------------------------------------------------------------------------

/// Output of the first pass over `s[pos..]`.
///
/// At each `<|`, the text before it is kept and the token is skipped up to and
/// including the next `|>`, or failing that the next `>`. When neither closes
/// the token, the pass stops and the remaining text `s[pos..]` is kept as it is.
pub open spec fn strip_delimited_from(s: Seq<char>, pos: int) -> Seq<char>
    decreases s.len() - pos,
    when 0 <= pos <= s.len()
{
    match find_pair(s, '<', '|', pos) {
        None => s.subrange(pos, s.len() as int),
        Some(start) => {
            proof {
                lemma_find_pair(s, '<', '|', pos);
                lemma_find_pair(s, '|', '>', start);
                lemma_find_char(s, '>', start);
            }
            match find_pair(s, '|', '>', start) {
                Some(end) => s.subrange(pos, start) + strip_delimited_from(s, end + 2),
                None => match find_char(s, '>', start) {
                    Some(end) => s.subrange(pos, start) + strip_delimited_from(s, end + 1),
                    None => s.subrange(pos, s.len() as int),
                },
            }
        },
    }
}

fn strip_delimited(s: &Vec<char>) -> (out: Vec<char>)
    ensures
        out@ == strip_delimited_from(s@, 0),
{
    let mut out: Vec<char> = Vec::new();
    let mut pos: usize = 0;
    loop
        invariant
            pos <= s.len(),
            out@ + strip_delimited_from(s@, pos as int) == strip_delimited_from(s@, 0),
        decreases s.len() - pos,
    {
        let ghost old_out = out@;
        proof {
            lemma_find_pair(s@, '<', '|', pos as int);
        }
        match find_pair_exec(s, '<', '|', pos) {
            None => {
                extend_range(&mut out, s, pos, s.len());
                return out;
            },
            Some(start) => {
                proof {
                    lemma_find_pair(s@, '|', '>', start as int);
                    lemma_find_char(s@, '>', start as int);
                }
                match find_pair_exec(s, '|', '>', start) {
                    Some(end) => {
                        extend_range(&mut out, s, pos, start);
                        assert(old_out + strip_delimited_from(s@, pos as int) =~= out@
                            + strip_delimited_from(s@, end + 2));
                        pos = end + 2;
                    },
                    None => match find_char_exec(s, '>', start) {
                        Some(end) => {
                            extend_range(&mut out, s, pos, start);
                            assert(old_out + strip_delimited_from(s@, pos as int) =~= out@
                                + strip_delimited_from(s@, end + 1));
                            pos = end + 1;
                        },
                        None => {
                            extend_range(&mut out, s, pos, s.len());
                            assert(old_out + strip_delimited_from(s@, pos as int) =~= out@);
                            return out;
                        },
                    },
                }
            },
        }
    }
}

// ---------------------------------------------------------------------------
// Second pass: `<word|>`
// ---------------------------------------------------------------------------

/// Every character of `s[lo..hi]` may appear inside a `<word|>` marker.
pub open spec fn all_word_chars(s: Seq<char>, lo: int, hi: int) -> bool {
    forall|k: int| lo <= k < hi ==> is_word_char(#[trigger] s[k])
}

/// Output of the second pass over `s[pos..]`.
///
/// At each `<`, if a `|>` follows and everything strictly between the `<` and
/// that `|>` is made of word characters, the whole `<word|>` is dropped;
/// otherwise the `<` is kept and the scan resumes just after it.
pub open spec fn strip_word_markers_from(s: Seq<char>, pos: int) -> Seq<char>
    decreases s.len() - pos,
    when 0 <= pos <= s.len()
{
    match find_char(s, '<', pos) {
        None => s.subrange(pos, s.len() as int),
        Some(start) => {
            proof {
                lemma_find_char(s, '<', pos);
                lemma_find_pair(s, '|', '>', start);
            }
            match find_pair(s, '|', '>', start) {
                Some(end) => if all_word_chars(s, start + 1, end) {
                    s.subrange(pos, start) + strip_word_markers_from(s, end + 2)
                } else {
                    s.subrange(pos, start + 1) + strip_word_markers_from(s, start + 1)
                },
                None => s.subrange(pos, start + 1) + strip_word_markers_from(s, start + 1),
            }
        },
    }
}

fn all_word_chars_exec(s: &Vec<char>, lo: usize, hi: usize) -> (b: bool)
    requires
        lo <= hi <= s.len(),
    ensures
        b == all_word_chars(s@, lo as int, hi as int),
{
    let mut i = lo;
    while i < hi
        invariant
            lo <= i <= hi <= s.len(),
            all_word_chars(s@, lo as int, i as int),
        decreases hi - i,
    {
        let c = s[i];
        if !(is_alphanumeric(c) || c == '_') {
            return false;
        }
        i = i + 1;
    }
    true
}

fn strip_word_markers(s: &Vec<char>) -> (out: Vec<char>)
    ensures
        out@ == strip_word_markers_from(s@, 0),
{
    let mut out: Vec<char> = Vec::new();
    let mut pos: usize = 0;
    loop
        invariant
            pos <= s.len(),
            out@ + strip_word_markers_from(s@, pos as int) == strip_word_markers_from(s@, 0),
        decreases s.len() - pos,
    {
        let ghost old_out = out@;
        proof {
            lemma_find_char(s@, '<', pos as int);
        }
        match find_char_exec(s, '<', pos) {
            None => {
                extend_range(&mut out, s, pos, s.len());
                return out;
            },
            Some(start) => {
                proof {
                    lemma_find_pair(s@, '|', '>', start as int);
                }
                let closing = find_pair_exec(s, '|', '>', start);
                let mut dropped = false;
                if let Some(end) = closing {
                    if all_word_chars_exec(s, start + 1, end) {
                        extend_range(&mut out, s, pos, start);
                        assert(old_out + strip_word_markers_from(s@, pos as int) =~= out@
                            + strip_word_markers_from(s@, end + 2));
                        pos = end + 2;
                        dropped = true;
                    }
                }
                if !dropped {
                    extend_range(&mut out, s, pos, start + 1);
                    assert(old_out + strip_word_markers_from(s@, pos as int) =~= out@
                        + strip_word_markers_from(s@, start + 1));
                    pos = start + 1;
                }
            },
        }
    }
}

// ---------------------------------------------------------------------------
// Trimming
// ---------------------------------------------------------------------------

/// `s` without its leading whitespace.
pub open spec fn trim_start(s: Seq<char>) -> Seq<char>
    decreases s.len(),
{
    if s.len() > 0 && unicode_white_space(s[0]) {
        trim_start(s.subrange(1, s.len() as int))
    } else {
        s
    }
}

/// `s` without its trailing whitespace.
pub open spec fn trim_end(s: Seq<char>) -> Seq<char>
    decreases s.len(),
{
    if s.len() > 0 && unicode_white_space(s[s.len() - 1]) {
        trim_end(s.subrange(0, s.len() - 1))
    } else {
        s
    }
}

/// `s` without its leading and trailing whitespace, as `str::trim` computes it.
pub open spec fn trim(s: Seq<char>) -> Seq<char> {
    trim_end(trim_start(s))
}

/// The bounds `[a, b)` of `s[lo..hi]` once surrounding whitespace is removed.
pub(crate) fn trim_range(s: &Vec<char>, lo: usize, hi: usize) -> (r: (usize, usize))
    requires
        lo <= hi <= s.len(),
    ensures
        lo <= r.0 <= r.1 <= hi,
        s@.subrange(r.0 as int, r.1 as int) == trim(s@.subrange(lo as int, hi as int)),
{
    let ghost whole = s@.subrange(lo as int, hi as int);
    let mut a: usize = lo;
    while a < hi && is_whitespace(s[a])
        invariant
            lo <= a <= hi <= s.len(),
            trim_start(whole) == trim_start(s@.subrange(a as int, hi as int)),
        decreases hi - a,
    {
        assert(s@.subrange(a as int, hi as int).subrange(1, hi - a) =~= s@.subrange(
            a + 1,
            hi as int,
        ));
        a = a + 1;
    }
    let mut b: usize = hi;
    while b > a && is_whitespace(s[b - 1])
        invariant
            lo <= a <= b <= hi <= s.len(),
            trim(whole) == trim_end(s@.subrange(a as int, b as int)),
        decreases b - a,
    {
        assert(s@.subrange(a as int, b as int).subrange(0, b - a - 1) =~= s@.subrange(
            a as int,
            b - 1,
        ));
        b = b - 1;
    }
    (a, b)
}

// ---------------------------------------------------------------------------
// The whole sanitiser
// ---------------------------------------------------------------------------

/// What `strip_control_tokens` returns for `text`.
pub open spec fn control_tokens_stripped(text: Seq<char>) -> Seq<char> {
    trim(strip_word_markers_from(strip_delimited_from(text, 0), 0))
}

/// With no `|>` in `s`, the second pass keeps `s[pos..]` as it is.
proof fn lemma_word_markers_keep(s: Seq<char>, pos: int)
    requires
        0 <= pos <= s.len(),
        forall|k: int| 0 <= k && k + 1 < s.len() ==> !(#[trigger] s[k] == '|' && s[k + 1] == '>'),
    ensures
        strip_word_markers_from(s, pos) == s.subrange(pos, s.len() as int),
    decreases s.len() - pos,
{
    lemma_find_char(s, '<', pos);
    match find_char(s, '<', pos) {
        None => {},
        Some(start) => {
            lemma_find_pair(s, '|', '>', start);
            lemma_word_markers_keep(s, start + 1);
            assert(s.subrange(pos, start + 1) + s.subrange(start + 1, s.len() as int) =~= s.subrange(
                pos,
                s.len() as int,
            ));
        },
    }
}

/// Text holding neither `<|` nor `|>` comes back unchanged apart from trimming of
/// surrounding whitespace.
pub proof fn law_plain_text_round_trips(text: Seq<char>)
    requires
        forall|k: int|
            0 <= k && k + 1 < text.len() ==> !(#[trigger] text[k] == '<' && text[k + 1] == '|')
                && !(text[k] == '|' && text[k + 1] == '>'),
    ensures
        control_tokens_stripped(text) == trim(text),
{
    lemma_find_pair(text, '<', '|', 0);
    assert(text.subrange(0, text.len() as int) =~= text);
    assert(strip_delimited_from(text, 0) == text);
    lemma_word_markers_keep(text, 0);
}

proof fn lemma_trim_start_no_leading_space(s: Seq<char>)
    ensures
        trim_start(s).len() > 0 ==> !unicode_white_space(trim_start(s)[0]),
        trim_start(s).len() <= s.len(),
    decreases s.len(),
{
    if s.len() > 0 && unicode_white_space(s[0]) {
        lemma_trim_start_no_leading_space(s.subrange(1, s.len() as int));
    }
}

proof fn lemma_trim_end_keeps_front(s: Seq<char>)
    ensures
        trim_end(s).len() <= s.len(),
        trim_end(s) == s.subrange(0, trim_end(s).len() as int),
        trim_end(s).len() > 0 ==> !unicode_white_space(trim_end(s)[trim_end(s).len() - 1]),
    decreases s.len(),
{
    if s.len() > 0 && unicode_white_space(s[s.len() - 1]) {
        let t = s.subrange(0, s.len() - 1);
        lemma_trim_end_keeps_front(t);
        assert(t.subrange(0, trim_end(t).len() as int) =~= s.subrange(0, trim_end(t).len() as int));
    } else {
        assert(s.subrange(0, s.len() as int) =~= s);
    }
}

/// The sanitised text never starts or ends with whitespace.
pub proof fn law_result_is_trimmed(text: Seq<char>)
    ensures
        ({
            let r = control_tokens_stripped(text);
            r.len() > 0 ==> !unicode_white_space(r[0]) && !unicode_white_space(r[r.len() - 1])
        }),
{
    let mid = strip_word_markers_from(strip_delimited_from(text, 0), 0);
    lemma_trim_start_no_leading_space(mid);
    lemma_trim_end_keeps_front(trim_start(mid));
}

/// Whether `a` is obtained from `b` by deleting characters.
pub open spec fn is_subsequence(a: Seq<char>, b: Seq<char>) -> bool
    decreases b.len(),
{
    if a.len() == 0 {
        true
    } else if b.len() == 0 {
        false
    } else if a[0] == b[0] {
        is_subsequence(a.subrange(1, a.len() as int), b.subrange(1, b.len() as int))
    } else {
        is_subsequence(a, b.subrange(1, b.len() as int))
    }
}

proof fn lemma_subseq_refl(b: Seq<char>)
    ensures
        is_subsequence(b, b),
    decreases b.len(),
{
    if b.len() > 0 {
        lemma_subseq_refl(b.subrange(1, b.len() as int));
    }
}

proof fn lemma_subseq_len(a: Seq<char>, b: Seq<char>)
    requires
        is_subsequence(a, b),
    ensures
        a.len() <= b.len(),
    decreases b.len(),
{
    if a.len() > 0 && b.len() > 0 {
        if a[0] == b[0] {
            lemma_subseq_len(a.subrange(1, a.len() as int), b.subrange(1, b.len() as int));
        } else {
            lemma_subseq_len(a, b.subrange(1, b.len() as int));
        }
    }
}

/// Adding text in front keeps a subsequence.
proof fn lemma_subseq_prepend(a: Seq<char>, x: Seq<char>, b: Seq<char>)
    requires
        is_subsequence(a, b),
    ensures
        is_subsequence(a, x + b),
    decreases x.len(),
{
    if x.len() > 0 {
        let y = x.subrange(1, x.len() as int);
        lemma_subseq_prepend(a, y, b);
        assert((x + b).subrange(1, (x + b).len() as int) =~= y + b);
        lemma_subseq_cons(a, x + b);
    }
}

/// Dropping the first character of `a` keeps a subsequence.
proof fn lemma_subseq_drop_first(a: Seq<char>, b: Seq<char>)
    requires
        is_subsequence(a, b),
        a.len() > 0,
    ensures
        is_subsequence(a.subrange(1, a.len() as int), b),
    decreases b.len(), 1int,
{
    let t = a.subrange(1, a.len() as int);
    if b.len() > 0 {
        let b1 = b.subrange(1, b.len() as int);
        if a[0] != b[0] {
            lemma_subseq_drop_first(a, b1);
        }
        lemma_subseq_cons(t, b);
    }
}

/// A subsequence of the tail of `b` is a subsequence of `b`.
proof fn lemma_subseq_cons(a: Seq<char>, b: Seq<char>)
    requires
        b.len() > 0,
        is_subsequence(a, b.subrange(1, b.len() as int)),
    ensures
        is_subsequence(a, b),
    decreases b.len(), 0int,
{
    if a.len() > 0 && a[0] == b[0] {
        lemma_subseq_drop_first(a, b.subrange(1, b.len() as int));
    }
}

proof fn lemma_subseq_concat(a1: Seq<char>, b1: Seq<char>, a2: Seq<char>, b2: Seq<char>)
    requires
        is_subsequence(a1, b1),
        is_subsequence(a2, b2),
    ensures
        is_subsequence(a1 + a2, b1 + b2),
    decreases b1.len(),
{
    if a1.len() == 0 {
        assert(a1 + a2 =~= a2);
        lemma_subseq_prepend(a2, b1, b2);
    } else {
        let t1 = b1.subrange(1, b1.len() as int);
        assert((b1 + b2).subrange(1, (b1 + b2).len() as int) =~= t1 + b2);
        if a1[0] == b1[0] {
            let s1 = a1.subrange(1, a1.len() as int);
            lemma_subseq_concat(s1, t1, a2, b2);
            assert((a1 + a2).subrange(1, (a1 + a2).len() as int) =~= s1 + a2);
        } else {
            lemma_subseq_concat(a1, t1, a2, b2);
        }
    }
}

proof fn lemma_subseq_trans(a: Seq<char>, b: Seq<char>, c: Seq<char>)
    requires
        is_subsequence(a, b),
        is_subsequence(b, c),
    ensures
        is_subsequence(a, c),
    decreases c.len(),
{
    if a.len() > 0 {
        lemma_subseq_len(a, b);
        lemma_subseq_len(b, c);
        let c1 = c.subrange(1, c.len() as int);
        let b1 = b.subrange(1, b.len() as int);
        let a1 = a.subrange(1, a.len() as int);
        if b[0] == c[0] {
            if a[0] == b[0] {
                lemma_subseq_trans(a1, b1, c1);
            } else {
                lemma_subseq_trans(a, b1, c1);
                lemma_subseq_cons(a, c);
            }
        } else {
            lemma_subseq_trans(a, b, c1);
            lemma_subseq_cons(a, c);
        }
    }
}

/// `s[i..]` of `s[p..]`, for `p <= i`.
proof fn lemma_subseq_suffix(s: Seq<char>, p: int, i: int)
    requires
        0 <= p <= i <= s.len(),
    ensures
        is_subsequence(s.subrange(i, s.len() as int), s.subrange(p, s.len() as int)),
{
    lemma_subseq_refl(s.subrange(i, s.len() as int));
    lemma_subseq_prepend(s.subrange(i, s.len() as int), s.subrange(p, i), s.subrange(i, s.len() as int));
    assert(s.subrange(p, i) + s.subrange(i, s.len() as int) =~= s.subrange(p, s.len() as int));
}

/// Keeping `s[pos..mid]` and something taken from `s[j..]` (with `mid <= j`) deletes characters of `s[pos..]`.
proof fn lemma_subseq_keep_then(s: Seq<char>, pos: int, mid: int, j: int, rest: Seq<char>)
    requires
        0 <= pos <= mid <= j <= s.len(),
        is_subsequence(rest, s.subrange(j, s.len() as int)),
    ensures
        is_subsequence(s.subrange(pos, mid) + rest, s.subrange(pos, s.len() as int)),
{
    lemma_subseq_suffix(s, mid, j);
    lemma_subseq_trans(rest, s.subrange(j, s.len() as int), s.subrange(mid, s.len() as int));
    lemma_subseq_refl(s.subrange(pos, mid));
    lemma_subseq_concat(s.subrange(pos, mid), s.subrange(pos, mid), rest, s.subrange(mid, s.len() as int));
    assert(s.subrange(pos, mid) + s.subrange(mid, s.len() as int) =~= s.subrange(pos, s.len() as int));
}

proof fn lemma_strip_delimited_subseq(s: Seq<char>, pos: int)
    requires
        0 <= pos <= s.len(),
    ensures
        is_subsequence(strip_delimited_from(s, pos), s.subrange(pos, s.len() as int)),
    decreases s.len() - pos,
{
    lemma_find_pair(s, '<', '|', pos);
    match find_pair(s, '<', '|', pos) {
        None => {
            lemma_subseq_refl(s.subrange(pos, s.len() as int));
        },
        Some(start) => {
            lemma_find_pair(s, '|', '>', start);
            lemma_find_char(s, '>', start);
            match find_pair(s, '|', '>', start) {
                Some(end) => {
                    lemma_strip_delimited_subseq(s, end + 2);
                    lemma_subseq_keep_then(s, pos, start, end + 2, strip_delimited_from(s, end + 2));
                },
                None => match find_char(s, '>', start) {
                    Some(end) => {
                        lemma_strip_delimited_subseq(s, end + 1);
                        lemma_subseq_keep_then(s, pos, start, end + 1, strip_delimited_from(s, end + 1));
                    },
                    None => {
                        lemma_subseq_refl(s.subrange(pos, s.len() as int));
                    },
                },
            }
        },
    }
}

proof fn lemma_strip_word_markers_subseq(s: Seq<char>, pos: int)
    requires
        0 <= pos <= s.len(),
    ensures
        is_subsequence(strip_word_markers_from(s, pos), s.subrange(pos, s.len() as int)),
    decreases s.len() - pos,
{
    lemma_find_char(s, '<', pos);
    match find_char(s, '<', pos) {
        None => {
            lemma_subseq_refl(s.subrange(pos, s.len() as int));
        },
        Some(start) => {
            lemma_find_pair(s, '|', '>', start);
            lemma_strip_word_markers_subseq(s, start + 1);
            match find_pair(s, '|', '>', start) {
                Some(end) => if all_word_chars(s, start + 1, end) {
                    lemma_strip_word_markers_subseq(s, end + 2);
                    lemma_subseq_keep_then(s, pos, start, end + 2, strip_word_markers_from(s, end + 2));
                } else {
                    lemma_subseq_keep_then(s, pos, start + 1, start + 1, strip_word_markers_from(s, start + 1));
                },
                None => {
                    lemma_subseq_keep_then(s, pos, start + 1, start + 1, strip_word_markers_from(s, start + 1));
                },
            }
        },
    }
}

proof fn lemma_trim_start_subseq(s: Seq<char>)
    ensures
        is_subsequence(trim_start(s), s),
    decreases s.len(),
{
    if s.len() > 0 && unicode_white_space(s[0]) {
        lemma_trim_start_subseq(s.subrange(1, s.len() as int));
        lemma_subseq_prepend(trim_start(s), s.subrange(0, 1), s.subrange(1, s.len() as int));
        assert(s.subrange(0, 1) + s.subrange(1, s.len() as int) =~= s);
    } else {
        lemma_subseq_refl(s);
    }
}

proof fn lemma_trim_end_subseq(s: Seq<char>)
    ensures
        is_subsequence(trim_end(s), s),
    decreases s.len(),
{
    if s.len() > 0 && unicode_white_space(s[s.len() - 1]) {
        let t = s.subrange(0, s.len() - 1);
        lemma_trim_end_subseq(t);
        lemma_subseq_concat(trim_end(t), t, Seq::empty(), s.subrange(s.len() - 1, s.len() as int));
        assert(trim_end(t) + Seq::<char>::empty() =~= trim_end(t));
        assert(t + s.subrange(s.len() - 1, s.len() as int) =~= s);
    } else {
        lemma_subseq_refl(s);
    }
}

/// Stripping only deletes characters: the result is a subsequence of the text,
/// and so never longer than it.
pub proof fn law_stripping_only_deletes(text: Seq<char>)
    ensures
        is_subsequence(control_tokens_stripped(text), text),
        control_tokens_stripped(text).len() <= text.len(),
{
    let first = strip_delimited_from(text, 0);
    let second = strip_word_markers_from(first, 0);
    lemma_strip_delimited_subseq(text, 0);
    assert(text.subrange(0, text.len() as int) =~= text);
    lemma_strip_word_markers_subseq(first, 0);
    assert(first.subrange(0, first.len() as int) =~= first);
    lemma_trim_start_subseq(second);
    lemma_trim_end_subseq(trim_start(second));
    lemma_subseq_trans(trim(second), trim_start(second), second);
    lemma_subseq_trans(trim(second), second, first);
    lemma_subseq_trans(trim(second), first, text);
    lemma_subseq_len(control_tokens_stripped(text), text);
}

/// The characters of a string slice, in order.
pub(crate) fn chars_of(text: &str) -> (v: Vec<char>)
    ensures
        v@ == text@,
{
    let mut v: Vec<char> = Vec::new();
    for c in it: text.chars()
        invariant
            v@ == it.seq().take(it.index() as int),
            it.seq() == text@,
    {
        v.push(c);
    }
    v
}

/// A string holding `s[lo..hi]`.
pub(crate) fn string_of_range(s: &Vec<char>, lo: usize, hi: usize) -> (r: String)
    requires
        lo <= hi <= s.len(),
    ensures
        r@ == s@.subrange(lo as int, hi as int),
{
    let mut r = String::new();
    let mut i = lo;
    while i < hi
        invariant
            lo <= i <= hi <= s.len(),
            r@ == s@.subrange(lo as int, i as int),
        decreases hi - i,
    {
        push_char(&mut r, s[i]);
        assert(s@.subrange(lo as int, i + 1) =~= s@.subrange(lo as int, i as int).push(s@[i as int]));
        i = i + 1;
    }
    r
}

/// Strips model control tokens (e.g. Gemma's `<|channel>thought<channel|>`)
/// from text before it is fed back into the conversation history.
pub fn strip_control_tokens(text: &str) -> (r: String)
    ensures
        r@ == control_tokens_stripped(text@),
{
    let chars = chars_of(text);
    let first = strip_delimited(&chars);
    let second = strip_word_markers(&first);
    let (lo, hi) = trim_range(&second, 0, second.len());
    assert(second@.subrange(0, second@.len() as int) =~= second@);
    string_of_range(&second, lo, hi)
}

// ---------------------------------------------------------------------------
// A closed `<|...|>` token is removed whole
// ---------------------------------------------------------------------------

/// Searching `x + y` from inside `y` finds what searching `y` finds, shifted by `x`.
proof fn lemma_find_pair_shift(x: Seq<char>, y: Seq<char>, a: char, b: char, p: int)
    requires
        0 <= p,
    ensures
        find_pair(x + y, a, b, x.len() + p) == (match find_pair(y, a, b, p) {
            Some(j) => Some(j + x.len()),
            None => None,
        }),
    decreases y.len() - p,
{
    let s = x + y;
    if p + 1 < y.len() {
        assert(s[x.len() + p] == y[p]);
        assert(s[x.len() + p + 1] == y[p + 1]);
        lemma_find_pair_shift(x, y, a, b, p + 1);
    }
}

/// Searching `x + y` for one character from inside `y`, shifted by `x`.
proof fn lemma_find_char_shift(x: Seq<char>, y: Seq<char>, c: char, p: int)
    requires
        0 <= p,
    ensures
        find_char(x + y, c, x.len() + p) == (match find_char(y, c, p) {
            Some(j) => Some(j + x.len()),
            None => None,
        }),
    decreases y.len() - p,
{
    let s = x + y;
    if p < y.len() {
        assert(s[x.len() + p] == y[p]);
        lemma_find_char_shift(x, y, c, p + 1);
    }
}

/// With no pair at positions `i..m`, a search from `i` finds what a search from `m` finds.
proof fn lemma_find_pair_skip(s: Seq<char>, a: char, b: char, i: int, m: int)
    requires
        0 <= i <= m,
        forall|k: int| i <= k < m && k + 1 < s.len() ==> !(#[trigger] s[k] == a && s[k + 1] == b),
    ensures
        find_pair(s, a, b, i) == find_pair(s, a, b, m),
    decreases m - i,
{
    if i < m {
        lemma_find_pair_skip(s, a, b, i + 1, m);
    }
}

/// The first pass over `x + y`, from inside `y`, is the first pass over `y`.
proof fn lemma_strip_delimited_shift(x: Seq<char>, y: Seq<char>, p: int)
    requires
        0 <= p <= y.len(),
    ensures
        strip_delimited_from(x + y, x.len() + p) == strip_delimited_from(y, p),
    decreases y.len() - p,
{
    let s = x + y;
    let i = x.len() + p;
    lemma_find_pair_shift(x, y, '<', '|', p);
    lemma_find_pair(y, '<', '|', p);
    match find_pair(y, '<', '|', p) {
        None => {
            assert(s.subrange(i, s.len() as int) =~= y.subrange(p, y.len() as int));
        },
        Some(start) => {
            lemma_find_pair_shift(x, y, '|', '>', start);
            lemma_find_char_shift(x, y, '>', start);
            lemma_find_pair(y, '|', '>', start);
            lemma_find_char(y, '>', start);
            assert(s.subrange(i, x.len() + start) =~= y.subrange(p, start));
            match find_pair(y, '|', '>', start) {
                Some(end) => {
                    lemma_strip_delimited_shift(x, y, end + 2);
                },
                None => match find_char(y, '>', start) {
                    Some(end) => {
                        lemma_strip_delimited_shift(x, y, end + 1);
                    },
                    None => {
                        assert(s.subrange(i, s.len() as int) =~= y.subrange(p, y.len() as int));
                    },
                },
            }
        },
    }
}

/// Text ahead of the first `<|` passes the first pass unchanged.
proof fn lemma_strip_delimited_prefix(x: Seq<char>, y: Seq<char>)
    requires
        forall|k: int|
            0 <= k < x.len() && k + 1 < (x + y).len() ==> !(#[trigger] (x + y)[k] == '<' && (x
                + y)[k + 1] == '|'),
    ensures
        strip_delimited_from(x + y, 0) == x + strip_delimited_from(y, 0),
{
    let s = x + y;
    lemma_find_pair_skip(s, '<', '|', 0, x.len() as int);
    lemma_find_pair_shift(x, y, '<', '|', 0);
    lemma_find_pair(y, '<', '|', 0);
    match find_pair(y, '<', '|', 0) {
        None => {
            assert(s.subrange(0, s.len() as int) =~= x + y.subrange(0, y.len() as int));
        },
        Some(start) => {
            lemma_find_pair_shift(x, y, '|', '>', start);
            lemma_find_char_shift(x, y, '>', start);
            lemma_find_pair(y, '|', '>', start);
            lemma_find_char(y, '>', start);
            assert(s.subrange(0, x.len() + start) =~= x + y.subrange(0, start));
            match find_pair(y, '|', '>', start) {
                Some(end) => {
                    lemma_strip_delimited_shift(x, y, end + 2);
                    assert(s.subrange(0, x.len() + start) + strip_delimited_from(y, end + 2)
                        =~= x + (y.subrange(0, start) + strip_delimited_from(y, end + 2)));
                },
                None => match find_char(y, '>', start) {
                    Some(end) => {
                        lemma_strip_delimited_shift(x, y, end + 1);
                        assert(s.subrange(0, x.len() + start) + strip_delimited_from(y, end + 1)
                            =~= x + (y.subrange(0, start) + strip_delimited_from(y, end + 1)));
                    },
                    None => {
                        assert(s.subrange(0, s.len() as int) =~= x + y.subrange(0, y.len() as int));
                    },
                },
            }
        },
    }
}

/// A leading `<|`, closed by its first `|>`, goes with everything up to that `|>`.
proof fn lemma_strip_delimited_token(b: Seq<char>, c: Seq<char>)
    requires
        forall|k: int|
            0 <= k && k + 1 < b.len() + 1 ==> !(#[trigger] (seq!['|'] + b)[k] == '|' && (seq!['|']
                + b)[k + 1] == '>'),
    ensures
        strip_delimited_from(seq!['<', '|'] + b + seq!['|', '>'] + c, 0) == strip_delimited_from(
            c,
            0,
        ),
{
    let t = seq!['<', '|'] + b + seq!['|', '>'];
    let s = t + c;
    assert(seq!['<', '|'] + b + seq!['|', '>'] + c == s);
    let n: int = b.len() as int + 2;
    assert(s[0] == '<' && s[1] == '|');
    assert(find_pair(s, '<', '|', 0) == Some(0int));
    assert forall|k: int| 0 <= k < n && k + 1 < s.len() implies !(#[trigger] s[k] == '|' && s[k
        + 1] == '>') by {
        if k == 0 {
            assert(s[0] == '<');
        } else if k + 1 < n {
            assert(s[k] == (seq!['|'] + b)[k - 1]);
            assert(s[k + 1] == (seq!['|'] + b)[k]);
        } else {
            assert(s[k + 1] == '|');
        }
    }
    lemma_find_pair_skip(s, '|', '>', 0, n);
    assert(s[n] == '|' && s[n + 1] == '>');
    assert(find_pair(s, '|', '>', n) == Some(n));
    assert(s.subrange(0, 0) =~= Seq::<char>::empty());
    lemma_strip_delimited_shift(t, c, 0);
    assert(Seq::<char>::empty() + strip_delimited_from(s, n + 2) =~= strip_delimited_from(s, n + 2));
}

/// A control token `<|...|>` is removed whole, up to the first `|>` after its `<|`, even
/// when a bare `>` occurs inside it: the text reads as if the token had never been there.
/// `a` is text that holds no `<|` of its own (nor one formed with the start of `c`), and
/// the token's body `b` holds no `|>` (nor does the `|` of the opener followed by `b`).
pub proof fn law_closed_token_is_removed(a: Seq<char>, b: Seq<char>, c: Seq<char>)
    requires
        forall|k: int|
            0 <= k < a.len() && k + 1 < (a + c).len() ==> !(#[trigger] (a + c)[k] == '<' && (a
                + c)[k + 1] == '|'),
        forall|k: int|
            0 <= k && k + 1 < b.len() + 1 ==> !(#[trigger] (seq!['|'] + b)[k] == '|' && (seq!['|']
                + b)[k + 1] == '>'),
    ensures
        control_tokens_stripped(a + seq!['<', '|'] + b + seq!['|', '>'] + c)
            == control_tokens_stripped(a + c),
{
    let t = seq!['<', '|'] + b + seq!['|', '>'];
    let tc = t + c;
    let whole = a + tc;
    assert(a + seq!['<', '|'] + b + seq!['|', '>'] + c =~= whole);
    assert forall|k: int| 0 <= k < a.len() && k + 1 < whole.len() implies !(#[trigger] whole[k]
        == '<' && whole[k + 1] == '|') by {
        if k + 1 < a.len() {
            assert(whole[k] == (a + c)[k] && whole[k + 1] == (a + c)[k + 1]);
        } else {
            assert(whole[k + 1] == '<');
        }
    }
    lemma_strip_delimited_prefix(a, tc);
    lemma_strip_delimited_token(b, c);
    assert(seq!['<', '|'] + b + seq!['|', '>'] + c =~= tc);
    lemma_strip_delimited_prefix(a, c);
}

} // verus!
