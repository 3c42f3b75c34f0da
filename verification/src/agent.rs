//! The text work of the conductor agent: finding the JSON block in a model's
//! answer, cleaning it, and cutting project instructions down to size.
use crate::text::{
    views,
    chars_of, first_occurrence, is_space, is_space_char, occurs_at, push_char, push_str,
    seq_contains, string_from_chars, trimmed, trim_chars,
};
use vstd::prelude::*;

verus! {

broadcast use vstd::string::group_string_axioms;

// ─── Cleaning JSON written by a model ────────────────────────────

/// A byte-order mark or zero-width space, joiner or non-joiner.
pub open spec fn is_invisible(c: char) -> bool {
    c == '\u{FEFF}' || ('\u{200B}' <= c && c <= '\u{200D}')
}

/// A double quote that is not preceded by a backslash.
pub open spec fn is_unescaped_quote(c: Seq<char>, i: int) -> bool {
    c[i] == '"' && (i == 0 || c[i - 1] != '\\')
}

/// The first position at or after `i` that holds a newline, or the length.
pub open spec fn line_end(c: Seq<char>, i: int) -> int
    decreases c.len() - i,
{
    if i >= c.len() || c[i] == '\n' {
        if i >= c.len() { c.len() as int } else { i }
    } else {
        line_end(c, i + 1)
    }
}

/// `c` from position `i` on, with `//` comments outside strings and
/// invisible characters removed; `in_string` tells whether position `i` is
/// inside a string.
pub open spec fn strip_comments(c: Seq<char>, i: int, in_string: bool) -> Seq<char>
    decreases c.len() - i, 1int,
{
    if i >= c.len() || i < 0 {
        Seq::empty()
    } else if is_unescaped_quote(c, i) {
        seq![c[i]] + strip_comments(c, i + 1, !in_string)
    } else if !in_string && c[i] == '/' && i + 1 < c.len() && c[i + 1] == '/' {
        strip_after_comment(c, i, in_string)
    } else if is_invisible(c[i]) {
        strip_comments(c, i + 1, in_string)
    } else {
        seq![c[i]] + strip_comments(c, i + 1, in_string)
    }
}

/// The rest of `c` after the comment that starts at `i`.
pub open spec fn strip_after_comment(c: Seq<char>, i: int, in_string: bool) -> Seq<char>
    decreases c.len() - i, 0int,
{
    if 0 <= i < line_end(c, i) && i <= c.len() {
        proof {
            lemma_line_end(c, i);
        }
        strip_comments(c, line_end(c, i), in_string)
    } else {
        Seq::empty()
    }
}

/// The first position at or after `k` that does not hold whitespace, or the
/// length.
pub open spec fn skip_space(c: Seq<char>, k: int) -> int
    decreases c.len() - k,
{
    if k >= c.len() || !is_space(c[k]) {
        if k >= c.len() { c.len() as int } else { k }
    } else {
        skip_space(c, k + 1)
    }
}

/// A comma that only whitespace separates from a closing brace or bracket.
pub open spec fn trailing_comma(c: Seq<char>, j: int) -> bool {
    &&& c[j] == ','
    &&& skip_space(c, j + 1) < c.len()
    &&& (c[skip_space(c, j + 1)] == '}' || c[skip_space(c, j + 1)] == ']')
}

/// `c` from position `j` on, without trailing commas.
pub open spec fn drop_trailing_commas(c: Seq<char>, j: int) -> Seq<char>
    decreases c.len() - j,
{
    if j >= c.len() || j < 0 {
        Seq::empty()
    } else if trailing_comma(c, j) {
        drop_trailing_commas(c, j + 1)
    } else {
        seq![c[j]] + drop_trailing_commas(c, j + 1)
    }
}

/// JSON text as a model wrote it, cleaned of comments, invisible characters,
/// trailing commas and surrounding whitespace.
pub open spec fn sanitized(raw: Seq<char>) -> Seq<char> {
    let cleaned = strip_comments(raw, 0, false);
    trimmed(drop_trailing_commas(cleaned, 0))
}

/// Where the line that holds position `i` ends.
pub proof fn lemma_line_end(c: Seq<char>, i: int)
    requires
        0 <= i <= c.len(),
    ensures
        i <= line_end(c, i) <= c.len(),
        line_end(c, i) < c.len() ==> c[line_end(c, i)] == '\n',
    decreases c.len() - i,
{
    if i < c.len() && c[i] != '\n' {
        lemma_line_end(c, i + 1);
    }
}

proof fn lemma_skip_space(c: Seq<char>, k: int)
    requires
        0 <= k <= c.len(),
    ensures
        k <= skip_space(c, k) <= c.len(),
        skip_space(c, k) < c.len() ==> !is_space(c[skip_space(c, k)]),
        forall|m: int| k <= m < skip_space(c, k) ==> is_space(#[trigger] c[m]),
    decreases c.len() - k,
{
    if k < c.len() && is_space(c[k]) {
        lemma_skip_space(c, k + 1);
    }
}

/// Cleans JSON written by a model: removes `//` comments outside strings,
/// byte-order marks and zero-width characters, commas right before a closing
/// brace or bracket, and surrounding whitespace.
pub fn sanitize_json(raw: &str) -> (r: String)
    ensures
        r@ == sanitized(raw@),
{
    let chars = chars_of(raw);
    let n = chars.len();
    let mut cleaned: Vec<char> = Vec::new();
    let mut in_string = false;
    let mut i: usize = 0;
    while i < n
        invariant
            n == chars.len(),
            chars@ == raw@,
            i <= n,
            cleaned@ + strip_comments(chars@, i as int, in_string) == strip_comments(chars@, 0, false),
        decreases n - i,
    {
        let ch = chars[i];
        if ch == '"' && (i == 0 || chars[i - 1] != '\\') {
            proof {
                assert(cleaned@.push(ch) + strip_comments(chars@, i + 1, !in_string) =~= cleaned@ + strip_comments(chars@, i as int, in_string));
            }
            in_string = !in_string;
            cleaned.push(ch);
            i = i + 1;
        } else if !in_string && ch == '/' && i + 1 < n && chars[i + 1] == '/' {
            let ghost start = i as int;
            while i < n && chars[i] != '\n'
                invariant
                    n == chars.len(),
                    start <= i <= n,
                    line_end(chars@, start) == line_end(chars@, i as int),
                decreases n - i,
            {
                i = i + 1;
            }
            proof {
                lemma_line_end(chars@, start);
                lemma_line_end(chars@, start + 1);
                assert(line_end(chars@, start) == i);
                assert(line_end(chars@, start) == line_end(chars@, start + 1));
                assert(strip_comments(chars@, start, in_string) == strip_after_comment(chars@, start, in_string));
                assert(strip_comments(chars@, start, in_string) == strip_comments(chars@, i as int, in_string));
            }
        } else if ch == '\u{FEFF}' || ('\u{200B}' <= ch && ch <= '\u{200D}') {
            i = i + 1;
        } else {
            proof {
                assert(cleaned@.push(ch) + strip_comments(chars@, i + 1, in_string) =~= cleaned@ + strip_comments(chars@, i as int, in_string));
            }
            cleaned.push(ch);
            i = i + 1;
        }
    }
    assert(cleaned@ =~= strip_comments(chars@, 0, false));
    let m = cleaned.len();
    let mut out: Vec<char> = Vec::new();
    let mut j: usize = 0;
    while j < m
        invariant
            m == cleaned.len(),
            j <= m,
            out@ + drop_trailing_commas(cleaned@, j as int) == drop_trailing_commas(cleaned@, 0),
        decreases m - j,
    {
        let mut skip = false;
        if cleaned[j] == ',' {
            let mut k = j + 1;
            while k < m && is_space_char(cleaned[k])
                invariant
                    m == cleaned.len(),
                    j < k <= m,
                    skip_space(cleaned@, j + 1) == skip_space(cleaned@, k as int),
                decreases m - k,
            {
                k = k + 1;
            }
            proof {
                lemma_skip_space(cleaned@, j + 1);
                assert(skip_space(cleaned@, j + 1) == k);
            }
            if k < m && (cleaned[k] == '}' || cleaned[k] == ']') {
                skip = true;
            }
        }
        if skip {
            j = j + 1;
        } else {
            proof {
                lemma_skip_space(cleaned@, j + 1);
                assert(out@.push(cleaned@[j as int]) + drop_trailing_commas(cleaned@, j + 1) =~= out@ + drop_trailing_commas(cleaned@, j as int));
            }
            out.push(cleaned[j]);
            j = j + 1;
        }
    }
    assert(out@ =~= drop_trailing_commas(cleaned@, 0));
    let t = trim_chars(&out);
    string_from_chars(&t)
}


// ─── Finding the JSON block ──────────────────────────────────────

/// `c` from position `k` on without its leading whitespace.
pub open spec fn trim_start_from(c: Seq<char>, k: int) -> Seq<char> {
    c.subrange(skip_space(c, k), c.len() as int)
}

/// The first plain fence at or after `from` whose content starts with an
/// opening brace or bracket.
pub open spec fn plain_fence(c: Seq<char>, from: int) -> Option<int>
    decreases c.len() - from,
{
    let rest = c.subrange(from, c.len() as int);
    if from < 0 || from > c.len() || !seq_contains(rest, "```"@) {
        None
    } else {
        let abs = from + first_occurrence(rest, "```"@);
        let t = trim_start_from(c, abs + 3);
        if t.len() > 0 && (t[0] == '{' || t[0] == '[') {
            Some(abs)
        } else if from < abs + 3 <= c.len() {
            plain_fence(c, abs + 3)
        } else {
            None
        }
    }
}

/// Where the fenced JSON block starts: a "```json" fence, or else a plain
/// fence around JSON, with the length of the fence marker.
pub open spec fn fence_start(c: Seq<char>) -> Option<(int, int)> {
    if seq_contains(c, "```json"@) {
        Some((first_occurrence(c, "```json"@), 7))
    } else {
        match plain_fence(c, 0) {
            Some(p) => Some((p, 3)),
            None => None,
        }
    }
}

/// The trimmed content of the fenced block, when there is a closing fence.
pub open spec fn fenced_block(c: Seq<char>) -> Option<(int, int)> {
    match fence_start(c) {
        Some((start, skip)) => {
            let js = skip_space(c, start + skip);
            let rest = c.subrange(js, c.len() as int);
            if seq_contains(rest, "```"@) {
                let end = js + first_occurrence(rest, "```"@);
                let a = js + crate::text::lead_ws(c.subrange(js, end));
                let b = end - crate::text::trail_ws(c.subrange(js, end));
                if a < b { Some((a, b)) } else { None }
            } else {
                None
            }
        },
        None => None,
    }
}

/// Scans `c` backwards from position `i - 1` for the last balanced object,
/// skipping braces inside strings.
pub open spec fn brace_scan(c: Seq<char>, i: int, depth: int, end: Option<int>, in_string: bool) -> Option<(int, int)>
    decreases i,
{
    if i <= 0 || i > c.len() {
        None
    } else {
        let k = i - 1;
        if is_unescaped_quote(c, k) {
            brace_scan(c, k, depth, end, !in_string)
        } else if in_string {
            brace_scan(c, k, depth, end, in_string)
        } else {
            let d2 = if c[k] == '}' { depth + 1 } else if c[k] == '{' { depth - 1 } else { depth };
            let e2 = if c[k] == '}' && end is None { Some(k) } else { end };
            if d2 == 0 && e2 is Some {
                Some((k, e2->0 + 1))
            } else {
                brace_scan(c, k, d2, e2, in_string)
            }
        }
    }
}

/// The character range of the JSON block in a model's answer.
pub open spec fn json_block(c: Seq<char>) -> Option<(int, int)> {
    match fenced_block(c) {
        Some(r) => Some(r),
        None => brace_scan(c, c.len() as int, 0, None, false),
    }
}

fn find_from(c: &Vec<char>, pat: &Vec<char>, from: usize) -> (r: Option<usize>)
    requires
        from <= c.len(),
    ensures
        match r {
            Some(p) => seq_contains(c@.subrange(from as int, c@.len() as int), pat@) && from <= p && p == from
                + first_occurrence(c@.subrange(from as int, c@.len() as int), pat@) && p + pat@.len() <= c@.len(),
            None => !seq_contains(c@.subrange(from as int, c@.len() as int), pat@),
        },
{
    let mut rest: Vec<char> = Vec::new();
    let mut i = from;
    while i < c.len()
        invariant
            from <= i <= c.len(),
            rest@ == c@.subrange(from as int, i as int),
        decreases c.len() - i,
    {
        rest.push(c[i]);
        i = i + 1;
        assert(rest@ =~= c@.subrange(from as int, i as int));
    }
    match crate::text::find_chars(&rest, pat) {
        Some(p) => Some(from + p),
        None => None,
    }
}

fn skip_space_exec(c: &Vec<char>, k: usize) -> (r: usize)
    requires
        k <= c.len(),
    ensures
        r == skip_space(c@, k as int),
        k <= r <= c.len(),
{
    let mut j = k;
    while j < c.len() && is_space_char(c[j])
        invariant
            k <= j <= c.len(),
            skip_space(c@, k as int) == skip_space(c@, j as int),
        decreases c.len() - j,
    {
        j = j + 1;
    }
    j
}

proof fn lemma_plain_fence_step(c: Seq<char>, from: int, abs: int)
    requires
        0 <= from <= abs,
        abs + 3 <= c.len(),
        seq_contains(c.subrange(from, c.len() as int), "```"@),
        abs == from + first_occurrence(c.subrange(from, c.len() as int), "```"@),
    ensures
        ({
            let t = trim_start_from(c, abs + 3);
            plain_fence(c, from) == if t.len() > 0 && (t[0] == '{' || t[0] == '[') {
                Some(abs)
            } else {
                plain_fence(c, abs + 3)
            }
        }),
{
}

#[verifier::rlimit(60)]
fn plain_fence_exec(c: &Vec<char>, fence: &Vec<char>) -> (r: Option<usize>)
    requires
        fence@ == "```"@,
    ensures
        r matches Some(p) ==> plain_fence(c@, 0) == Some(p as int) && p + 3 <= c.len(),
        r is None ==> plain_fence(c@, 0) is None,
{
    proof {
        reveal_strlit("```");
    }
    let mut from: usize = 0;
    loop
        invariant
            fence@ == "```"@,
            fence@.len() == 3,
            from <= c.len(),
            plain_fence(c@, from as int) == plain_fence(c@, 0),
        decreases c.len() - from,
    {
        match find_from(c, fence, from) {
            None => {
                return None;
            },
            Some(abs) => {
                let js = skip_space_exec(c, abs + 3);
                proof {
                    lemma_skip_space(c@, abs + 3);
                    lemma_plain_fence_step(c@, from as int, abs as int);
                    let t = trim_start_from(c@, abs + 3);
                    if js < c.len() {
                        assert(t[0] == c@[js as int]);
                    }
                }
                if js < c.len() && (c[js] == '{' || c[js] == '[') {
                    return Some(abs);
                }
                from = abs + 3;
            },
        }
    }
}

proof fn lemma_brace_depth(c: Seq<char>, i: int, depth: int, end: Option<int>, in_string: bool)
    requires
        0 <= i <= c.len(),
        end matches Some(e) ==> i <= e < c.len(),
    ensures
        brace_scan(c, i, depth, end, in_string) matches Some((a, b)) ==> 0 <= a < b <= c.len(),
    decreases i,
{
    if i > 0 {
        let k = i - 1;
        let d2 = if c[k] == '}' { depth + 1 } else if c[k] == '{' { depth - 1 } else { depth };
        let e2 = if c[k] == '}' && end is None { Some(k) } else { end };
        lemma_brace_depth(c, k, depth, end, !in_string);
        lemma_brace_depth(c, k, depth, end, in_string);
        lemma_brace_depth(c, k, d2, e2, in_string);
    }
}

#[verifier::rlimit(60)]
fn fenced_exec(c: &Vec<char>) -> (r: Option<(usize, usize)>)
    ensures
        match fenced_block(c@) {
            Some((a, b)) => r == Some((a as usize, b as usize)) && 0 <= a <= b <= c.len(),
            None => r is None,
        },
{
    let n = c.len();
    let json_marker = chars_of("```json");
    let fence = chars_of("```");
    proof {
        reveal_strlit("```json");
        reveal_strlit("```");
    }
    let start: Option<(usize, usize)> = match crate::text::find_chars(c, &json_marker) {
        Some(p) => Some((p, 7)),
        None => match plain_fence_exec(c, &fence) {
            Some(p) => Some((p, 3)),
            None => None,
        },
    };
    assert(match start {
        Some((p, k)) => fence_start(c@) == Some((p as int, k as int)) && p + k <= n,
        None => fence_start(c@) is None,
    });
    match start {
        Some((p, skip)) => {
            let js = skip_space_exec(c, p + skip);
            match find_from(c, &fence, js) {
                Some(end) => {
                    let mut a = js;
                    while a < end && is_space_char(c[a])
                        invariant
                            js <= a <= end,
                            end <= n,
                            n == c.len(),
                            forall|m: int| js <= m < a ==> is_space(#[trigger] c@[m]),
                        decreases end - a,
                    {
                        a = a + 1;
                    }
                    let mut b = end;
                    while b > a && is_space_char(c[b - 1])
                        invariant
                            a <= b <= end,
                            end <= n,
                            n == c.len(),
                            forall|m: int| b <= m < end ==> is_space(#[trigger] c@[m]),
                        decreases b,
                    {
                        b = b - 1;
                    }
                    proof {
                        let seg = c@.subrange(js as int, end as int);
                        assert forall|m: int| 0 <= m < a - js implies is_space(#[trigger] seg[m]) by {
                            assert(seg[m] == c@[js + m]);
                        }
                        if a < end {
                            assert(seg[a - js] == c@[a as int]);
                        }
                        crate::text::lemma_lead_ws_exact(seg, a - js);
                        assert forall|m: int| seg.len() - (end - b) <= m < seg.len() implies is_space(#[trigger] seg[m]) by {
                            assert(seg[m] == c@[js + m]);
                        }
                        if b > a {
                            assert(seg[seg.len() - (end - b) - 1] == c@[b - 1]);
                            crate::text::lemma_trail_ws_exact(seg, end - b);
                        } else {
                            crate::text::lemma_trail_ws_bound(seg);
                        }
                    }
                    if a < b {
                        return Some((a, b));
                    }
                    None
                },
                None => None,
            }
        },
        None => None,
    }
}

fn brace_scan_exec(c: &Vec<char>) -> (r: Option<(usize, usize)>)
    ensures
        match brace_scan(c@, c@.len() as int, 0, None, false) {
            Some((a, b)) => r == Some((a as usize, b as usize)) && 0 <= a < b <= c.len(),
            None => r is None,
        },
{
    let n = c.len();
    let mut depth: i128 = 0;
    let mut end: Option<usize> = None;
    let mut in_string = false;
    let mut i: usize = n;
    while i > 0
        invariant
            i <= n,
            n == c.len(),
            -(n - i) <= depth <= n - i,
            end matches Some(e) ==> i <= e < n,
            brace_scan(c@, i as int, depth as int, match end {
                Some(e) => Some(e as int),
                None => None,
            }, in_string) == brace_scan(c@, n as int, 0, None, false),
        decreases i,
    {
        let k = i - 1;
        let ch = c[k];
        if ch == '"' && (k == 0 || c[k - 1] != '\\') {
            in_string = !in_string;
            i = k;
        } else if in_string {
            i = k;
        } else {
            if ch == '}' {
                if end.is_none() {
                    end = Some(k);
                }
                depth = depth + 1;
            } else if ch == '{' {
                depth = depth - 1;
            }
            if depth == 0 {
                match end {
                    Some(e) => {
                        return Some((k, e + 1));
                    },
                    None => {},
                }
            }
            i = k;
        }
    }
    None
}

/// Finds the JSON block in a model's answer: the content of a "```json"
/// fence, or of the first plain fence whose content starts with `{` or `[`,
/// trimmed; otherwise the last balanced `{...}` object, braces inside
/// strings not counted.
pub fn extract_json_block(text: &str) -> (r: Option<&str>)
    ensures
        match json_block(text@) {
            Some((a, b)) => r matches Some(s) && 0 <= a <= b <= text@.len() && s@ == text@.subrange(a, b),
            None => r is None,
        },
{
    let c = chars_of(text);
    match fenced_exec(&c) {
        Some((a, b)) => Some(text.substring_char(a, b)),
        None => match brace_scan_exec(&c) {
            Some((a, b)) => Some(text.substring_char(a, b)),
            None => None,
        },
    }
}


// ─── What the conductor's answer shows ───────────────────────────

/// What one line of the conductor's answer shows, and whether a JSON block
/// is open after it: blank lines, the fences of JSON blocks and their
/// contents are hidden; other lines are shown trimmed.
pub open spec fn display_step(line: Seq<char>, in_json: bool) -> (Option<Seq<char>>, bool) {
    let t = trimmed(line);
    if t.len() == 0 {
        (None, in_json)
    } else if crate::text::has_prefix(t, "```json"@) {
        (None, true)
    } else if t == "```"@ {
        (None, false)
    } else if in_json {
        (None, true)
    } else {
        (Some(t), false)
    }
}

/// The lines shown of the first `n` lines, and whether a JSON block is open
/// after them.
pub open spec fn display_upto(lines: Seq<Seq<char>>, in_json: bool, n: int) -> (Seq<Seq<char>>, bool)
    decreases n,
{
    if n <= 0 {
        (Seq::empty(), in_json)
    } else {
        let (shown, open) = display_upto(lines, in_json, n - 1);
        let (line, after) = display_step(lines[n - 1], open);
        (match line {
            Some(l) => shown.push(l),
            None => shown,
        }, after)
    }
}

/// The lines of a piece of the conductor's answer that are shown (see
/// `display_step`), given whether a JSON block was open before it, and
/// whether one is open after it.
pub fn display_lines(msg: &str, in_json: bool) -> (r: (Vec<String>, bool))
    ensures
        ({
            let ls = crate::orchestra::text_lines(msg@);
            let (shown, open) = display_upto(ls, in_json, ls.len() as int);
            crate::text::views(r.0@) == shown && r.1 == open
        }),
{
    let lines = crate::orchestra::text_lines_exec(msg);
    let ghost ls = crate::orchestra::text_lines(msg@);
    let mut fence = String::new();
    proof {
        reveal_strlit("");
        reveal_strlit("```");
    }
    push_str(&mut fence, "```");
    let mut out: Vec<String> = Vec::new();
    let mut open = in_json;
    let mut k: usize = 0;
    while k < lines.len()
        invariant
            k <= lines@.len(),
            crate::text::views(lines@) == ls,
            fence@ == "```"@,
            crate::text::views(out@) == display_upto(ls, in_json, k as int).0,
            open == display_upto(ls, in_json, k as int).1,
        decreases lines@.len() - k,
    {
        let t = crate::text::trim_string(lines[k].as_str());
        assert(t@ == trimmed(ls[k as int]));
        let blank = crate::text::chars_of(t.as_str()).len() == 0;
        if blank {
        } else if crate::text::starts_with_str(t.as_str(), "```json") {
            open = true;
        } else if crate::json::str_eq(t.as_str(), fence.as_str()) {
            open = false;
        } else if open {
        } else {
            out.push(t);
        }
        k = k + 1;
    }
    (out, open)
}

// ─── Collecting the conductor's answer ───────────────────────────

/// What has been collected of the conductor's answer so far: its text,
/// and whether a JSON block is open in what was shown.
pub struct ReplyState {
    pub text: String,
    pub in_json: bool,
}

/// An optional text, or `d`.
pub open spec fn text_or(o: Option<String>, d: Seq<char>) -> Seq<char> {
    match o {
        Some(s) => s@,
        None => d,
    }
}

/// Takes one event of the conductor's session into the answer. Returns the
/// lines to show and whether the answer is complete:
/// - a thinking message shows "Thinking...";
/// - another message is added to the text and shown as `display_lines`
///   lets it through;
/// - a tool call shows "> " and its summary;
/// - the result is added to the text and completes the answer;
/// - an error shows "Error: " and its message ("Unknown error" without one);
/// - other events change nothing.
pub fn reply_step(acc: &mut ReplyState, ev: &crate::events::ClaudeEvent) -> (r: (Vec<String>, bool))
    ensures
        ev.event_type == crate::state::ClaudeEventType::Assistant && crate::events::opt_view(ev.subtype) == Some("thinking"@) ==> {
            &&& final(acc).text@ == old(acc).text@ && final(acc).in_json == old(acc).in_json
            &&& views(r.0@) == seq!["Thinking..."@] && !r.1
        },
        ev.event_type == crate::state::ClaudeEventType::Assistant && crate::events::opt_view(ev.subtype) != Some("thinking"@) ==> {
            &&& !r.1
            &&& match ev.message {
                Some(m) => {
                    let ls = crate::orchestra::text_lines(m@);
                    let (shown, open) = display_upto(ls, old(acc).in_json, ls.len() as int);
                    &&& final(acc).text@ == old(acc).text@ + m@
                    &&& final(acc).in_json == open
                    &&& views(r.0@) == shown
                },
                None => final(acc).text@ == old(acc).text@ && final(acc).in_json == old(acc).in_json && r.0@.len() == 0,
            }
        },
        ev.event_type == crate::state::ClaudeEventType::ToolUse ==> {
            &&& final(acc).text@ == old(acc).text@ && final(acc).in_json == old(acc).in_json && !r.1
            &&& views(r.0@) == seq!["> "@ + crate::tool_summary::tool_summary(text_or(ev.tool_name, ""@), crate::bridge::opt_ref_view(match &ev.tool_input {
                Some(x) => Some(x),
                None => None,
            }))]
        },
        ev.event_type == crate::state::ClaudeEventType::Result ==> {
            &&& final(acc).text@ == old(acc).text@ + text_or(ev.result, ""@) && final(acc).in_json == old(acc).in_json
            &&& r.0@.len() == 0 && r.1
        },
        ev.event_type == crate::state::ClaudeEventType::Error ==> {
            &&& final(acc).text@ == old(acc).text@ && final(acc).in_json == old(acc).in_json && !r.1
            &&& views(r.0@) == seq!["Error: "@ + text_or(ev.message, "Unknown error"@)]
        },
        ev.event_type == crate::state::ClaudeEventType::System || ev.event_type == crate::state::ClaudeEventType::ToolResult ==> {
            &&& final(acc).text@ == old(acc).text@ && final(acc).in_json == old(acc).in_json
            &&& r.0@.len() == 0 && !r.1
        },
{
    proof {
        reveal_strlit("");
        reveal_strlit("thinking");
        reveal_strlit("Thinking...");
    }
    let mut out: Vec<String> = Vec::new();
    match ev.event_type {
        crate::state::ClaudeEventType::Assistant => {
            let thinking = match &ev.subtype {
                Some(st) => crate::json::str_eq(st.as_str(), "thinking"),
                None => false,
            };
            if thinking {
                let mut l = String::new();
                push_str(&mut l, "Thinking...");
                out.push(l);
                assert(views(out@) =~= seq!["Thinking..."@]);
            } else {
                match &ev.message {
                    Some(m) => {
                        push_str(&mut acc.text, m.as_str());
                        let (lines, open) = display_lines(m.as_str(), acc.in_json);
                        acc.in_json = open;
                        out = lines;
                    },
                    None => {},
                }
            }
            (out, false)
        },
        crate::state::ClaudeEventType::ToolUse => {
            let name = match &ev.tool_name {
                Some(n) => n.as_str(),
                None => "",
            };
            let summary = crate::tool_summary::summarize_tool_use(name, ev.tool_input.as_ref());
            let mut l = String::new();
            push_str(&mut l, "> ");
            push_str(&mut l, summary.as_str());
            out.push(l);
            assert(views(out@) =~= seq![l@]);
            (out, false)
        },
        crate::state::ClaudeEventType::Result => {
            match &ev.result {
                Some(t) => push_str(&mut acc.text, t.as_str()),
                None => {
                    assert(acc.text@ + ""@ =~= acc.text@);
                },
            }
            (out, true)
        },
        crate::state::ClaudeEventType::Error => {
            let mut l = String::new();
            push_str(&mut l, "Error: ");
            match &ev.message {
                Some(m) => push_str(&mut l, m.as_str()),
                None => push_str(&mut l, "Unknown error"),
            }
            out.push(l);
            assert(views(out@) =~= seq![l@]);
            (out, false)
        },
        _ => (out, false),
    }
}

/// The answer when the session ends before its result: the text collected
/// so far when there is any; otherwise an error, saying whether the wait
/// timed out or the session closed.
pub fn reply_cut_short(acc: ReplyState, timed_out: bool) -> (r: Result<String, String>)
    ensures
        acc.text@.len() > 0 ==> (r matches Ok(t) && t@ == acc.text@),
        acc.text@.len() == 0 ==> (r matches Err(e) && e@ == (if timed_out {
            "send_and_collect timed out after 300s"@
        } else {
            "Session closed before turn completed"@
        })),
{
    proof {
        reveal_strlit("");
    }
    if chars_of(acc.text.as_str()).len() > 0 {
        Ok(acc.text)
    } else {
        let mut e = String::new();
        if timed_out {
            push_str(&mut e, "send_and_collect timed out after 300s");
        } else {
            push_str(&mut e, "Session closed before turn completed");
        }
        Err(e)
    }
}
} // verus!
