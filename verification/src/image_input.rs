//! Image paths in user input.
//!
//! When an image is dragged into the terminal its full path is pasted as
//! text. The paths are taken out of the message and returned apart.
use crate::bridge::{file_extension, path_extension};
use crate::json::str_eq;
use crate::text::{
    chars_of, has_prefix, is_space, is_space_char, join, join_strings, lowercase, push_char,
    string_from_chars, to_lowercase, trimmed, views,
};
use vstd::prelude::*;

verus! {

broadcast use vstd::string::group_string_axioms;

/// What remains of the input once image paths are taken out.
#[derive(Debug, Clone)]
pub struct ExtractedInput {
    /// The text, without the image paths.
    pub text: String,
    /// The absolute image paths found.
    pub images: Vec<String>,
}

/// The image extensions recognised, lowercase.
pub open spec fn image_extensions() -> Seq<Seq<char>> {
    seq!["png"@, "jpg"@, "jpeg"@, "gif"@, "webp"@, "bmp"@, "svg"@, "tif"@, "tiff"@]
}

/// A path whose extension, lowercased, is an image extension.
pub open spec fn image_path(path: Seq<char>) -> bool {
    match file_extension(path) {
        Some(e) => image_extensions().contains(lowercase(e)),
        None => false,
    }
}

/// The image extensions recognised, lowercase.
pub fn image_extensions_list() -> (r: Vec<&'static str>)
    ensures
        r@.len() == 9,
        forall|i: int| 0 <= i < 9 ==> r@[i]@ == #[trigger] image_extensions()[i],
{
    let mut v = Vec::new();
    v.push("png");
    v.push("jpg");
    v.push("jpeg");
    v.push("gif");
    v.push("webp");
    v.push("bmp");
    v.push("svg");
    v.push("tif");
    v.push("tiff");
    v
}

/// Whether a path looks like an image file, by its extension.
pub fn is_image_path(path: &str) -> (r: bool)
    ensures
        r == image_path(path@),
{
    match path_extension(path) {
        Some(e) => {
            let lower = to_lowercase(e.as_str());
            let exts = image_extensions_list();
            let mut k: usize = 0;
            while k < exts.len()
                invariant
                    k <= exts.len(),
                    file_extension(path@) == Some(e@),
                    lower@ == lowercase(e@),
                    exts@.len() == 9,
                    forall|i: int| 0 <= i < 9 ==> exts@[i]@ == #[trigger] image_extensions()[i],
                    forall|i: int| 0 <= i < k ==> image_extensions()[i] != lower@,
                decreases exts.len() - k,
            {
                if str_eq(exts[k], lower.as_str()) {
                    assert(image_extensions()[k as int] == lower@);
                    assert(image_extensions().contains(lower@));
                    return true;
                }
                k = k + 1;
            }
            false
        },
        None => false,
    }
}

// ─── Tokens ──────────────────────────────────────────────────────

/// A quote character that opens a quoted token.
pub open spec fn is_quote(c: char) -> bool {
    c == '"' || c == '\''
}

/// The tokens of `c` from position `i` on, where `current` is the token
/// being read and `in_quote` the quote that is open, if any. Whitespace
/// outside quotes separates tokens; quotes stay in their token.
pub open spec fn tokens_from(c: Seq<char>, i: int, current: Seq<char>, in_quote: Option<char>) -> Seq<Seq<char>>
    decreases c.len() - i,
{
    if i >= c.len() || i < 0 {
        if current.len() > 0 { seq![current] } else { Seq::empty() }
    } else {
        let ch = c[i];
        match in_quote {
            None => if is_quote(ch) {
                tokens_from(c, i + 1, current.push(ch), Some(ch))
            } else if is_space(ch) {
                if current.len() > 0 {
                    seq![current] + tokens_from(c, i + 1, Seq::empty(), None)
                } else {
                    tokens_from(c, i + 1, Seq::empty(), None)
                }
            } else {
                tokens_from(c, i + 1, current.push(ch), None)
            },
            Some(open) => if ch == open {
                tokens_from(c, i + 1, current.push(ch), None)
            } else {
                tokens_from(c, i + 1, current.push(ch), in_quote)
            },
        }
    }
}

/// Splits input into tokens, keeping quoted strings as single tokens.
pub fn tokenize_respecting_quotes(input: &str) -> (r: Vec<String>)
    ensures
        views(r@) == tokens_from(input@, 0, Seq::empty(), None),
{
    let c = chars_of(input);
    let n = c.len();
    let mut tokens: Vec<String> = Vec::new();
    let mut current: Vec<char> = Vec::new();
    let mut in_quote: Option<char> = None;
    let mut i: usize = 0;
    while i < n
        invariant
            n == c.len(),
            c@ == input@,
            i <= n,
            views(tokens@) + tokens_from(c@, i as int, current@, in_quote) == tokens_from(c@, 0, Seq::empty(), None),
        decreases n - i,
    {
        let ch = c[i];
        let ghost before = views(tokens@);
        match in_quote {
            None => {
                if ch == '"' || ch == '\'' {
                    current.push(ch);
                    in_quote = Some(ch);
                } else if is_space_char(ch) {
                    if current.len() > 0 {
                        let ghost cur = current@;
                        let tok = string_from_chars(&current);
                        tokens.push(tok);
                        current = Vec::new();
                        proof {
                            assert(views(tokens@) =~= before.push(cur));
                            assert(before.push(cur) + tokens_from(c@, i + 1, Seq::empty(), None) =~= before + (seq![cur] + tokens_from(c@, i + 1, Seq::empty(), None)));
                        }
                    } else {
                        current = Vec::new();
                        assert(current@ =~= Seq::<char>::empty());
                    }
                } else {
                    current.push(ch);
                }
            },
            Some(open) => {
                if ch == open {
                    in_quote = None;
                }
                current.push(ch);
            },
        }
        i = i + 1;
    }
    if current.len() > 0 {
        let ghost before = views(tokens@);
        let ghost cur = current@;
        let tok = string_from_chars(&current);
        tokens.push(tok);
        assert(views(tokens@) =~= before + seq![cur]);
    } else {
        assert(views(tokens@) =~= views(tokens@) + Seq::<Seq<char>>::empty());
    }
    tokens
}

// ─── Cleaning a token ────────────────────────────────────────────

/// How many times `ch` repeats at the start of `s`.
pub open spec fn lead_run(s: Seq<char>, ch: char) -> nat
    decreases s.len(),
{
    if s.len() > 0 && s[0] == ch { 1 + lead_run(s.drop_first(), ch) } else { 0 }
}

/// How many times `ch` repeats at the end of `s`.
pub open spec fn trail_run(s: Seq<char>, ch: char) -> nat
    decreases s.len(),
{
    if s.len() > 0 && s.last() == ch { 1 + trail_run(s.drop_last(), ch) } else { 0 }
}

/// `s` without the runs of `ch` at its ends, as `str::trim_matches` cuts
/// them.
pub open spec fn trim_char(s: Seq<char>, ch: char) -> Seq<char> {
    let rest = s.skip(lead_run(s, ch) as int);
    rest.take(rest.len() - trail_run(rest, ch))
}

/// `s` with every backslash-space turned into a space, left to right.
pub open spec fn unescape_spaces(s: Seq<char>) -> Seq<char>
    decreases s.len(),
{
    if s.len() == 0 {
        s
    } else if s.len() >= 2 && s[0] == '\\' && s[1] == ' ' {
        seq![' '] + unescape_spaces(s.skip(2))
    } else {
        seq![s[0]] + unescape_spaces(s.skip(1))
    }
}

/// A token cleaned of the quotes and escapes that terminals add to dropped
/// paths.
pub open spec fn cleaned_token(t: Seq<char>) -> Seq<char> {
    unescape_spaces(trim_char(trim_char(t, '"'), '\''))
}

proof fn lemma_lead_run(s: Seq<char>, ch: char, k: int)
    requires
        0 <= k <= s.len(),
        forall|m: int| 0 <= m < k ==> #[trigger] s[m] == ch,
        k == s.len() || s[k] != ch,
    ensures
        lead_run(s, ch) == k,
    decreases k,
{
    if k > 0 {
        lemma_lead_run(s.drop_first(), ch, k - 1);
    }
}

proof fn lemma_trail_run(s: Seq<char>, ch: char, k: int)
    requires
        0 <= k <= s.len(),
        forall|m: int| s.len() - k <= m < s.len() ==> #[trigger] s[m] == ch,
        k == s.len() || s[s.len() - k - 1] != ch,
    ensures
        trail_run(s, ch) == k,
    decreases k,
{
    if k > 0 {
        lemma_trail_run(s.drop_last(), ch, k - 1);
    }
}

fn trim_char_vec(s: &Vec<char>, ch: char) -> (r: Vec<char>)
    ensures
        r@ == trim_char(s@, ch),
{
    let n = s.len();
    let mut a: usize = 0;
    while a < n && s[a] == ch
        invariant
            a <= n,
            n == s.len(),
            forall|m: int| 0 <= m < a ==> #[trigger] s@[m] == ch,
        decreases n - a,
    {
        a = a + 1;
    }
    proof {
        lemma_lead_run(s@, ch, a as int);
    }
    let mut b: usize = n;
    while b > a && s[b - 1] == ch
        invariant
            a <= b <= n,
            n == s.len(),
            forall|m: int| b <= m < n ==> #[trigger] s@[m] == ch,
        decreases b,
    {
        b = b - 1;
    }
    let ghost rest = s@.skip(a as int);
    proof {
        assert forall|m: int| rest.len() - (n - b) <= m < rest.len() implies #[trigger] rest[m] == ch by {
            assert(rest[m] == s@[a + m]);
        }
        if b > a {
            assert(rest[rest.len() - (n - b) - 1] == s@[b - 1]);
        }
        lemma_trail_run(rest, ch, (n - b) as int);
    }
    let mut out: Vec<char> = Vec::new();
    let mut i: usize = a;
    while i < b
        invariant
            a <= i <= b,
            b <= n,
            n == s.len(),
            out@ == s@.subrange(a as int, i as int),
        decreases b - i,
    {
        out.push(s[i]);
        i = i + 1;
        assert(out@ =~= s@.subrange(a as int, i as int));
    }
    assert(out@ =~= trim_char(s@, ch));
    out
}

fn unescape_vec(s: &Vec<char>) -> (r: Vec<char>)
    ensures
        r@ == unescape_spaces(s@),
{
    let n = s.len();
    let mut out: Vec<char> = Vec::new();
    let mut i: usize = 0;
    assert(s@.skip(0) =~= s@);
    while i < n
        invariant
            i <= n,
            n == s.len(),
            out@ + unescape_spaces(s@.skip(i as int)) == unescape_spaces(s@),
        decreases n - i,
    {
        let ghost rest = s@.skip(i as int);
        if i + 1 < n && s[i] == '\\' && s[i + 1] == ' ' {
            proof {
                assert(rest.skip(2) =~= s@.skip(i + 2));
                assert(out@.push(' ') + unescape_spaces(s@.skip(i + 2)) =~= out@ + unescape_spaces(rest));
            }
            out.push(' ');
            i = i + 2;
        } else {
            proof {
                assert(rest.skip(1) =~= s@.skip(i + 1));
                assert(out@.push(s@[i as int]) + unescape_spaces(s@.skip(i + 1)) =~= out@ + unescape_spaces(rest));
            }
            out.push(s[i]);
            i = i + 1;
        }
    }
    assert(s@.skip(n as int) =~= Seq::<char>::empty());
    assert(out@ =~= unescape_spaces(s@));
    out
}

// ─── Extraction ──────────────────────────────────────────────────

/// A token is an image path: cleaned, it is absolute and has an image
/// extension.
pub open spec fn is_image_token(t: Seq<char>) -> bool {
    has_prefix(cleaned_token(t), "/"@) && image_path(cleaned_token(t))
}

/// The image paths among `tokens`, cleaned, in order.
pub open spec fn image_tokens(tokens: Seq<Seq<char>>) -> Seq<Seq<char>>
    decreases tokens.len(),
{
    if tokens.len() == 0 {
        Seq::empty()
    } else {
        let rest = image_tokens(tokens.drop_last());
        if is_image_token(tokens.last()) { rest.push(cleaned_token(tokens.last())) } else { rest }
    }
}

/// The tokens that are not image paths, as written, in order.
pub open spec fn text_tokens(tokens: Seq<Seq<char>>) -> Seq<Seq<char>>
    decreases tokens.len(),
{
    if tokens.len() == 0 {
        Seq::empty()
    } else {
        let rest = text_tokens(tokens.drop_last());
        if is_image_token(tokens.last()) { rest } else { rest.push(tokens.last()) }
    }
}

/// The message used when only images were given.
pub open spec fn image_only_prompt() -> Seq<char> {
    "Analyze the attached image(s) and adjust the plan accordingly."@
}

/// The text of an input once its image paths are taken out.
pub open spec fn extracted_text(input: Seq<char>) -> Seq<char> {
    let tokens = tokens_from(input, 0, Seq::empty(), None);
    let text = join(text_tokens(tokens), " "@);
    if trimmed(text).len() == 0 && image_tokens(tokens).len() > 0 {
        image_only_prompt()
    } else {
        text
    }
}

/// Takes the image paths out of user input: tokens (quoted strings kept
/// whole) that, cleaned of quotes and escaped spaces, are absolute paths
/// with an image extension. The other tokens are joined with spaces; when
/// only images were given, a default request to analyse them is the text.
pub fn extract_image_paths(input: &str) -> (r: ExtractedInput)
    ensures
        views(r.images@) == image_tokens(tokens_from(input@, 0, Seq::empty(), None)),
        r.text@ == extracted_text(input@),
{
    let tokens = tokenize_respecting_quotes(input);
    let ghost tv = views(tokens@);
    let mut images: Vec<String> = Vec::new();
    let mut text_parts: Vec<String> = Vec::new();
    let mut k: usize = 0;
    while k < tokens.len()
        invariant
            k <= tokens.len(),
            tv == views(tokens@),
            views(images@) == image_tokens(tv.take(k as int)),
            views(text_parts@) == text_tokens(tv.take(k as int)),
        decreases tokens.len() - k,
    {
        let tc = chars_of(tokens[k].as_str());
        let t1 = trim_char_vec(&tc, '"');
        let t2 = trim_char_vec(&t1, '\'');
        let t3 = unescape_vec(&t2);
        let cleaned = string_from_chars(&t3);
        proof {
            assert(tv.take(k + 1).drop_last() =~= tv.take(k as int));
            assert(tv.take(k + 1).last() == tokens@[k as int]@);
        }
        let ghost img_before = views(images@);
        let ghost txt_before = views(text_parts@);
        if crate::text::starts_with_str(cleaned.as_str(), "/") && is_image_path(cleaned.as_str()) {
            images.push(cleaned);
            assert(views(images@) =~= img_before.push(cleaned_token(tv[k as int])));
            assert(views(text_parts@) =~= txt_before);
        } else {
            text_parts.push(tokens[k].clone());
            assert(views(text_parts@) =~= txt_before.push(tv[k as int]));
        }
        k = k + 1;
    }
    assert(tv.take(tokens.len() as int) =~= tv);
    let text = join_strings(&text_parts, " ");
    let blank = crate::text::is_blank(text.as_str());
    let final_text = if blank && images.len() > 0 {
        let mut t = String::new();
        crate::text::push_str(&mut t, "Analyze the attached image(s) and adjust the plan accordingly.");
        assert(t@ =~= image_only_prompt());
        t
    } else {
        text
    };
    ExtractedInput { text: final_text, images }
}

} // verus!
