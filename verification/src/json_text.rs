//! Recovering a JSON object from free-form model output.
//!
//! Model replies may wrap the JSON in reasoning blocks or Markdown fences,
//! put prose around it, or leave trailing commas. The functions here peel
//! those layers off before the text is parsed.
use vstd::prelude::*;
use crate::text::{chars_of, contains, is_whitespace, is_ws, occurs_at, owned, string_of, trim, trim_str};

verus! {

// ---------------------------------------------------------------------------
// Regular expressions.
// ---------------------------------------------------------------------------

/// What `Regex::new(pattern)` then `replace_all(text, rep)` returns, or
/// `None` when the pattern does not compile.
pub uninterp spec fn regex_replace_all_text(
    pattern: Seq<char>,
    text: Seq<char>,
    rep: Seq<char>,
) -> Option<Seq<char>>;

/// What `Regex::new(pattern)` then `replace(text, rep)` (first match only)
/// returns, or `None` when the pattern does not compile.
pub uninterp spec fn regex_replace_first_text(
    pattern: Seq<char>,
    text: Seq<char>,
    rep: Seq<char>,
) -> Option<Seq<char>>;

/// The text of capture group `group` in the leftmost match of `pattern` in
/// `text`: `None` when the pattern does not compile, `Some(None)` when there
/// is no match or the group took no part in it.
pub uninterp spec fn regex_capture_text(
    pattern: Seq<char>,
    text: Seq<char>,
    group: nat,
) -> Option<Option<Seq<char>>>;

/// `regex::Regex::replace_all`: the claimed result is the named result of
/// the pattern, the text and the replacement.
#[verifier::external_body]
fn regex_replace_all(pattern: &str, text: &str, rep: &str) -> (r: Option<String>)
    ensures
        r matches Some(s) ==> regex_replace_all_text(pattern@, text@, rep@) == Some(s@),
        r is None ==> regex_replace_all_text(pattern@, text@, rep@) is None,
{
    regex::Regex::new(pattern).ok().map(|re| re.replace_all(text, rep).into_owned())
}

/// `regex::Regex::replace` (first match only): the claimed result is the
/// named result of the pattern, the text and the replacement.
#[verifier::external_body]
fn regex_replace_first(pattern: &str, text: &str, rep: &str) -> (r: Option<String>)
    ensures
        r matches Some(s) ==> regex_replace_first_text(pattern@, text@, rep@) == Some(s@),
        r is None ==> regex_replace_first_text(pattern@, text@, rep@) is None,
{
    regex::Regex::new(pattern).ok().map(|re| re.replace(text, rep).into_owned())
}

/// `regex::Regex::captures` followed by `Captures::get(group)`: the claimed
/// result is the named result of the pattern, the text and the group.
#[verifier::external_body]
fn regex_capture(pattern: &str, text: &str, group: usize) -> (r: Option<Option<String>>)
    ensures
        r matches Some(Some(s)) ==> regex_capture_text(pattern@, text@, group as nat) == Some(
            Some(s@),
        ),
        r matches Some(None) ==> regex_capture_text(pattern@, text@, group as nat) == Some(
            None::<Seq<char>>,
        ),
        r is None ==> regex_capture_text(pattern@, text@, group as nat) is None,
{
    regex::Regex::new(pattern).ok().map(
        |re| re.captures(text).and_then(|c| c.get(group)).map(|m| m.as_str().to_string()),
    )
}

/// Reasoning blocks the model may emit before its answer.
pub open spec fn think_pattern() -> Seq<char> {
    "(?s)<think>.*?</think>"@
}

/// A fenced code block, optionally tagged `json`; group 1 is its body.
pub open spec fn fenced_pattern() -> Seq<char> {
    "(?s)```(?:json)?\\s*(.*?)\\s*```"@
}

/// An opening fence at the start of the text.
pub open spec fn leading_fence_pattern() -> Seq<char> {
    "(?i)^```(?:json)?\\s*\\n?"@
}

/// A closing fence at the end of the text.
pub open spec fn trailing_fence_pattern() -> Seq<char> {
    "\\n?```\\s*$"@
}

/// The text a replacement produced, or the input when the pattern did not
/// compile.
pub open spec fn or_input(r: Option<Seq<char>>, input: Seq<char>) -> Seq<char> {
    match r {
        Some(s) => s,
        None => input,
    }
}

/// `text` without reasoning blocks, trimmed.
pub open spec fn unthought(text: Seq<char>) -> Seq<char> {
    trim(or_input(regex_replace_all_text(think_pattern(), text, ""@), text))
}

/// Model output without reasoning blocks and Markdown fences: the body of
/// the first fenced block when there is one, otherwise the text with an
/// opening fence at its start and a closing fence at its end removed.
pub open spec fn spec_strip_fences(text: Seq<char>) -> Seq<char> {
    let t = unthought(text);
    match regex_capture_text(fenced_pattern(), t, 1) {
        Some(Some(m)) => trim(m),
        _ => {
            let a = or_input(regex_replace_first_text(leading_fence_pattern(), t, ""@), t);
            trim(or_input(regex_replace_first_text(trailing_fence_pattern(), a, ""@), a))
        },
    }
}

/// Removes reasoning blocks and Markdown code fences around model output.
pub fn strip_markdown_fences(text: &str) -> (r: String)
    ensures
        r@ == spec_strip_fences(text@),
{
    let without_think = match regex_replace_all("(?s)<think>.*?</think>", text, "") {
        Some(s) => s,
        None => owned(text),
    };
    let t = trim_str(without_think.as_str());
    match regex_capture("(?s)```(?:json)?\\s*(.*?)\\s*```", t.as_str(), 1) {
        Some(Some(m)) => {
            return trim_str(m.as_str());
        },
        _ => {},
    }
    let without_leading = match regex_replace_first("(?i)^```(?:json)?\\s*\\n?", t.as_str(), "") {
        Some(s) => s,
        None => t,
    };
    let without_trailing = match regex_replace_first(
        "\\n?```\\s*$",
        without_leading.as_str(),
        "",
    ) {
        Some(s) => s,
        None => without_leading,
    };
    trim_str(without_trailing.as_str())
}

// ---------------------------------------------------------------------------
// Outer object extraction.
// ---------------------------------------------------------------------------

/// Scanner state while looking for the brace that closes the first object.
pub struct BraceScan {
    pub depth: int,
    pub in_string: bool,
    pub escape: bool,
}

/// One step of the scanner: braces count only outside string literals, and
/// a backslash inside a string escapes the next character.
pub open spec fn brace_step(st: BraceScan, ch: char) -> BraceScan {
    if st.in_string {
        if st.escape {
            BraceScan { depth: st.depth, in_string: true, escape: false }
        } else if ch == '\\' {
            BraceScan { depth: st.depth, in_string: true, escape: true }
        } else if ch == '"' {
            BraceScan { depth: st.depth, in_string: false, escape: false }
        } else {
            st
        }
    } else if ch == '"' {
        BraceScan { depth: st.depth, in_string: true, escape: st.escape }
    } else if ch == '{' {
        BraceScan { depth: st.depth + 1, in_string: false, escape: st.escape }
    } else if ch == '}' {
        BraceScan { depth: st.depth - 1, in_string: false, escape: st.escape }
    } else {
        st
    }
}

/// Scanner state after the first `n` characters of `s`.
pub open spec fn brace_state(s: Seq<char>, n: int) -> BraceScan
    decreases n,
{
    if n <= 0 {
        BraceScan { depth: 0, in_string: false, escape: false }
    } else {
        brace_step(brace_state(s, n - 1), s[n - 1])
    }
}

/// Whether the character at `i` closes the outermost object.
pub open spec fn closes_at(s: Seq<char>, i: int) -> bool {
    !brace_state(s, i).in_string && s[i] == '}' && brace_state(s, i).depth == 1
}

/// The first position at or after `i` where the outermost object closes,
/// or -1.
pub open spec fn first_close_from(s: Seq<char>, i: int) -> int
    decreases s.len() - i,
{
    if i < 0 || i >= s.len() {
        -1
    } else if closes_at(s, i) {
        i
    } else {
        first_close_from(s, i + 1)
    }
}

/// Position of the first occurrence of `c` at or after `i`, or -1.
pub open spec fn find_char_from(s: Seq<char>, c: char, i: int) -> int
    decreases s.len() - i,
{
    if i < 0 || i >= s.len() {
        -1
    } else if s[i] == c {
        i
    } else {
        find_char_from(s, c, i + 1)
    }
}

/// The outermost JSON object in `stripped`: from the first `{` to the brace
/// that balances it (braces in string literals do not count); the whole
/// tail from that `{` when it never closes; `stripped` itself when it has no
/// `{`.
pub open spec fn outer_object(stripped: Seq<char>) -> Seq<char> {
    let start = find_char_from(stripped, '{', 0);
    if start < 0 {
        stripped
    } else {
        let rest = stripped.subrange(start, stripped.len() as int);
        let close = first_close_from(rest, 0);
        if close < 0 {
            rest
        } else {
            rest.subrange(0, close + 1)
        }
    }
}

proof fn lemma_find_char_from(s: Seq<char>, c: char, i: int)
    ensures
        find_char_from(s, c, i) >= 0 ==> i <= find_char_from(s, c, i) < s.len() && s[find_char_from(s, c, i)] == c,
    decreases s.len() - i,
{
    if 0 <= i < s.len() && s[i] != c {
        lemma_find_char_from(s, c, i + 1);
    }
}

proof fn lemma_first_close_from(s: Seq<char>, i: int)
    ensures
        first_close_from(s, i) >= 0 ==> i <= first_close_from(s, i) < s.len() && s[first_close_from(s, i)] == '}',
    decreases s.len() - i,
{
    if 0 <= i < s.len() && !closes_at(s, i) {
        lemma_first_close_from(s, i + 1);
    }
}

/// The extracted object is a piece of the text it came from: when the text
/// holds a `{`, the piece starts with it, and ends with a `}` when the
/// object closes.
pub proof fn law_outer_object_is_a_braced_piece(stripped: Seq<char>)
    requires
        find_char_from(stripped, '{', 0) >= 0,
    ensures
        contains(stripped, outer_object(stripped)),
        outer_object(stripped).len() >= 1,
        outer_object(stripped)[0] == '{',
        first_close_from(stripped.subrange(find_char_from(stripped, '{', 0), stripped.len() as int), 0) >= 0
            ==> outer_object(stripped).last() == '}',
{
    let start = find_char_from(stripped, '{', 0);
    lemma_find_char_from(stripped, '{', 0);
    let rest = stripped.subrange(start, stripped.len() as int);
    let close = first_close_from(rest, 0);
    lemma_first_close_from(rest, 0);
    let o = outer_object(stripped);
    let end = if close < 0 { stripped.len() as int } else { start + close + 1 };
    assert(stripped.subrange(start, end) =~= o);
    assert(occurs_at(stripped, o, start));
    assert(o[0] == rest[0]);
}

/// The JSON object a model reply most likely holds.
pub open spec fn spec_extract_outer_json_object(text: Seq<char>) -> Seq<char> {
    outer_object(spec_strip_fences(text))
}

/// Copies `v[from..to]`.
pub fn sub_chars(v: &Vec<char>, from: usize, to: usize) -> (r: Vec<char>)
    requires
        from <= to <= v.len(),
    ensures
        r@ == v@.subrange(from as int, to as int),
{
    let mut r: Vec<char> = Vec::new();
    let mut k = from;
    while k < to
        invariant
            from <= k <= to <= v.len(),
            r@ == v@.subrange(from as int, k as int),
        decreases to - k,
    {
        r.push(v[k]);
        proof {
            assert(v@.subrange(from as int, k + 1) =~= v@.subrange(from as int, k as int).push(
                v@[k as int],
            ));
        }
        k += 1;
    }
    r
}

/// Extracts the outermost JSON object from model output, after removing
/// reasoning blocks and code fences.
pub fn extract_outer_json_object(text: &str) -> (r: String)
    ensures
        r@ == spec_extract_outer_json_object(text@),
{
    let stripped = strip_markdown_fences(text);
    let v = chars_of(stripped.as_str());
    let n = v.len();
    let mut start: usize = 0;
    while start < n && v[start] != '{'
        invariant
            n == v.len(),
            0 <= start <= n,
            find_char_from(v@, '{', 0) == find_char_from(v@, '{', start as int),
        decreases n - start,
    {
        start += 1;
    }
    if start == n {
        return stripped;
    }
    assert(find_char_from(v@, '{', start as int) == start as int);
    let rest = sub_chars(&v, start, n);
    let m = rest.len();
    let ghost s = rest@;
    let mut depth: i128 = 0;
    let mut in_string = false;
    let mut escape = false;
    let mut i: usize = 0;
    while i < m
        invariant
            m == rest.len(),
            s == rest@,
            s == v@.subrange(start as int, n as int),
            v@ == stripped@,
            stripped@ == spec_strip_fences(text@),
            n == v.len(),
            start < n,
            find_char_from(v@, '{', 0) == start as int,
            0 <= i <= m,
            -(i as int) <= depth <= i as int,
            brace_state(s, i as int) == (BraceScan { depth: depth as int, in_string, escape }),
            first_close_from(s, 0) == first_close_from(s, i as int),
        decreases m - i,
    {
        let ch = rest[i];
        if in_string {
            if escape {
                escape = false;
            } else if ch == '\\' {
                escape = true;
            } else if ch == '"' {
                in_string = false;
            }
        } else if ch == '"' {
            in_string = true;
        } else if ch == '{' {
            depth = depth + 1;
        } else if ch == '}' {
            if depth == 1 {
                proof {
                    assert(closes_at(s, i as int));
                    assert(first_close_from(s, i as int) == i as int);
                }
                return string_of(&sub_chars(&rest, 0, i + 1));
            }
            depth = depth - 1;
        }
        i += 1;
    }
    string_of(&rest)
}

// ---------------------------------------------------------------------------
// Trailing-comma repair.
// ---------------------------------------------------------------------------

/// Quote tracking while repairing: whether we are inside a string literal
/// and whether the previous character was an escaping backslash.
pub struct QuoteScan {
    pub quoted: bool,
    pub escaped: bool,
}

/// One step of quote tracking.
pub open spec fn quote_step(st: QuoteScan, c: char) -> QuoteScan {
    if st.quoted {
        if st.escaped {
            QuoteScan { quoted: true, escaped: false }
        } else if c == '\\' {
            QuoteScan { quoted: true, escaped: true }
        } else if c == '"' {
            QuoteScan { quoted: false, escaped: false }
        } else {
            st
        }
    } else if c == '"' {
        QuoteScan { quoted: true, escaped: st.escaped }
    } else {
        st
    }
}

/// Quote tracking after the first `n` characters of `s`.
pub open spec fn quote_state(s: Seq<char>, n: int) -> QuoteScan
    decreases n,
{
    if n <= 0 {
        QuoteScan { quoted: false, escaped: false }
    } else {
        quote_step(quote_state(s, n - 1), s[n - 1])
    }
}

/// Position of the first non-whitespace character at or after `i`, or -1.
pub open spec fn non_ws_from(s: Seq<char>, i: int) -> int
    decreases s.len() - i,
{
    if i < 0 || i >= s.len() {
        -1
    } else if !is_ws(s[i]) {
        i
    } else {
        non_ws_from(s, i + 1)
    }
}

/// Whether the character at `i` is a comma outside any string literal whose
/// next non-whitespace character closes an object or array.
pub open spec fn dangling_comma(s: Seq<char>, i: int) -> bool {
    let j = non_ws_from(s, i + 1);
    &&& !quote_state(s, i).quoted
    &&& s[i] == ','
    &&& j >= 0
    &&& (s[j] == '}' || s[j] == ']')
}

/// The first `n` characters of `s` with dangling commas removed.
pub open spec fn without_dangling_commas(s: Seq<char>, n: int) -> Seq<char>
    decreases n,
{
    if n <= 0 {
        Seq::empty()
    } else if dangling_comma(s, n - 1) {
        without_dangling_commas(s, n - 1)
    } else {
        without_dangling_commas(s, n - 1).push(s[n - 1])
    }
}

/// Position of the first non-whitespace character at or after `i`.
pub fn next_non_whitespace(v: &Vec<char>, i: usize) -> (r: Option<usize>)
    ensures
        match r {
            Some(j) => j as int == non_ws_from(v@, i as int) && j < v.len(),
            None => non_ws_from(v@, i as int) == -1,
        },
{
    let mut j = i;
    while j < v.len() && is_whitespace(v[j])
        invariant
            i <= j,
            non_ws_from(v@, i as int) == non_ws_from(v@, j as int),
        decreases v.len() - j,
    {
        j += 1;
    }
    if j < v.len() {
        Some(j)
    } else {
        None
    }
}

/// Removes commas that directly precede a closing `}` or `]` (whitespace
/// in between allowed), leaving string literals untouched.
pub fn repair_trailing_commas(text: &str) -> (r: String)
    ensures
        r@ == without_dangling_commas(text@, text@.len() as int),
{
    let v = chars_of(text);
    let n = v.len();
    let mut out: Vec<char> = Vec::new();
    let mut quoted = false;
    let mut escaped = false;
    let mut i: usize = 0;
    while i < n
        invariant
            n == v.len(),
            v@ == text@,
            0 <= i <= n,
            quote_state(v@, i as int) == (QuoteScan { quoted, escaped }),
            out@ == without_dangling_commas(v@, i as int),
        decreases n - i,
    {
        let c = v[i];
        let mut drop = false;
        if quoted {
            if escaped {
                escaped = false;
            } else if c == '\\' {
                escaped = true;
            } else if c == '"' {
                quoted = false;
            }
        } else if c == '"' {
            quoted = true;
        } else if c == ',' {
            match next_non_whitespace(&v, i + 1) {
                Some(j) => {
                    if v[j] == '}' || v[j] == ']' {
                        drop = true;
                    }
                },
                None => {},
            }
        }
        proof {
            assert(drop == dangling_comma(v@, i as int));
        }
        if !drop {
            out.push(c);
        }
        i += 1;
    }
    string_of(&out)
}

} // verus!
