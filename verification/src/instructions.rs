//! Cutting a project's instruction file down to size while keeping its
//! shape: markdown is split at its headings, and sections that do not fit
//! are reduced to their heading and first paragraph.
use crate::keys::{bytes_of, lemma_boundary_after_ascii, lemma_encode_concat};
use crate::text::{floor_boundary, push_str, truncate_str};
use vstd::prelude::*;
use vstd::string::StringSliceAdditionalSpecFns;
use vstd::utf8::*;

verus! {

broadcast use vstd::string::group_string_axioms;

// ─── Sections ────────────────────────────────────────────────────

/// A markdown heading starts at byte `j`: one to three `#` and a space.
pub open spec fn heading_at(b: Seq<u8>, j: int) -> bool {
    ||| j + 1 < b.len() && b[j] == 35 && b[j + 1] == 32
    ||| j + 2 < b.len() && b[j] == 35 && b[j + 1] == 35 && b[j + 2] == 32
    ||| j + 3 < b.len() && b[j] == 35 && b[j + 1] == 35 && b[j + 2] == 35 && b[j + 3] == 32
}

/// The text splits after the newline at `i`: a heading follows it.
pub open spec fn split_point(b: Seq<u8>, i: int) -> bool {
    0 <= i < b.len() && b[i] == 10 && heading_at(b, i + 1)
}

/// The sections (byte ranges) from offset `i` on, the current one starting
/// at `last`; a split right at the start of the current section makes none.
pub open spec fn sections_from(b: Seq<u8>, i: int, last: int) -> Seq<(int, int)>
    decreases b.len() - i,
{
    if i >= b.len() || i < 0 {
        if last < b.len() { seq![(last, b.len() as int)] } else { Seq::empty() }
    } else if split_point(b, i) {
        (if i > last { seq![(last, i + 1)] } else { Seq::empty() }) + sections_from(b, i + 1, i + 1)
    } else {
        sections_from(b, i + 1, last)
    }
}

/// The sections of markdown text `b`, each ending with the newline before
/// the next heading; the whole text when there are none.
pub open spec fn md_sections(b: Seq<u8>) -> Seq<(int, int)> {
    let s = sections_from(b, 0, 0);
    if s.len() == 0 { seq![(0, b.len() as int)] } else { s }
}

fn is_split(b: &[u8], i: usize) -> (r: bool)
    requires
        i < b@.len(),
    ensures
        r == split_point(b@, i as int),
{
    let n = b.len();
    if b[i] != 10u8 {
        return false;
    }
    let j = i + 1;
    (n - j > 1 && b[j] == 35u8 && b[j + 1] == 32u8)
        || (n - j > 2 && b[j] == 35u8 && b[j + 1] == 35u8 && b[j + 2] == 32u8)
        || (n - j > 3 && b[j] == 35u8 && b[j + 1] == 35u8 && b[j + 2] == 35u8 && b[j + 3] == 32u8)
}

/// The part of `s` between byte offsets `a` and `e`.
fn substr(s: &str, a: usize, e: usize) -> (r: &str)
    requires
        a <= e <= s.spec_bytes().len(),
        is_char_boundary(s.spec_bytes(), a as int),
        is_char_boundary(s.spec_bytes(), e as int),
    ensures
        r.spec_bytes() == s.spec_bytes().subrange(a as int, e as int),
{
    proof {
        encode_utf8_valid_utf8(s@);
    }
    let (head, _rest) = s.split_at(e);
    let ghost bytes = s.spec_bytes();
    proof {
        encode_utf8_valid_utf8(head@);
        is_char_boundary_start_end_of_seq(head.spec_bytes());
        if a < e {
            is_char_boundary_iff_not_is_continuation_byte(bytes, a as int);
            is_char_boundary_iff_not_is_continuation_byte(head.spec_bytes(), a as int);
        }
    }
    let (_front, piece) = head.split_at(a);
    piece
}

/// The offset after a newline is a character boundary.
proof fn lemma_after_newline(s: Seq<char>, i: int)
    requires
        0 <= i < bytes_of(s).len(),
        bytes_of(s)[i] == 10,
    ensures
        is_char_boundary(bytes_of(s), i + 1),
{
    let b = bytes_of(s);
    encode_utf8_valid_utf8(s);
    is_char_boundary_iff_not_is_continuation_byte(b, i);
    lemma_boundary_after_ascii(b, i);
}

/// Splits markdown text at headings of one to three `#` that start a line
/// (see `md_sections`).
pub fn split_markdown_sections(content: &str) -> (r: Vec<&str>)
    ensures
        r@.len() == md_sections(content.spec_bytes()).len(),
        forall|k: int| 0 <= k < r@.len() ==> (#[trigger] r@[k]).spec_bytes() == content.spec_bytes().subrange(
            md_sections(content.spec_bytes())[k].0,
            md_sections(content.spec_bytes())[k].1,
        ),
{
    let b = content.as_bytes();
    let n = b.len();
    let ghost bs = b@;
    proof {
        encode_utf8_valid_utf8(content@);
        is_char_boundary_start_end_of_seq(bs);
    }
    let mut out: Vec<&str> = Vec::new();
    let ghost mut emitted: Seq<(int, int)> = Seq::empty();
    let mut last: usize = 0;
    let mut i: usize = 0;
    while i < n
        invariant
            n == bs.len(),
            bs == b@,
            bs == content.spec_bytes(),
            last <= i <= n,
            is_char_boundary(bs, last as int),
            out@.len() == emitted.len(),
            forall|k: int| 0 <= k < out@.len() ==> (#[trigger] out@[k]).spec_bytes() == bs.subrange(emitted[k].0, emitted[k].1),
            emitted + sections_from(bs, i as int, last as int) == sections_from(bs, 0, 0),
        decreases n - i,
    {
        let ghost old_emitted = emitted;
        let ghost old_last = last as int;
        if is_split(b, i) {
            proof {
                lemma_after_newline(content@, i as int);
            }
            if i > last {
                let piece = substr(content, last, i + 1);
                out.push(piece);
                proof {
                    emitted = emitted.push((last as int, i + 1));
                }
            }
            last = i + 1;
            proof {
                let prefix: Seq<(int, int)> = if i > old_last { seq![(old_last, i + 1)] } else { Seq::empty() };
                assert(sections_from(bs, i as int, old_last) == prefix + sections_from(bs, i + 1, i + 1));
                assert(emitted =~= old_emitted + prefix);
                assert(emitted + sections_from(bs, i + 1, i + 1) =~= old_emitted + sections_from(bs, i as int, old_last));
            }
        } else {
            assert(sections_from(bs, i as int, old_last) == sections_from(bs, i + 1, old_last));
        }
        i = i + 1;
    }
    if last < n {
        let piece = substr(content, last, n);
        out.push(piece);
        proof {
            emitted = emitted.push((last as int, n as int));
        }
    }
    assert(emitted =~= sections_from(bs, 0, 0));
    if out.len() == 0 {
        out.push(content);
        assert(bs.subrange(0, n as int) =~= bs);
    }
    out
}


// ─── Truncation ──────────────────────────────────────────────────

/// The note after text that was cut short.
pub const TRUNCATION_NOTE: &'static str = "\n\n[...truncated — full file available in project root]";

/// The note after a section reduced to its heading and first paragraph.
pub const SECTION_NOTE: &'static str = "...\n[...section truncated]\n\n";

/// The note after a section reduced to its heading.
pub const HEADING_NOTE: &'static str = "\n[...section truncated]\n\n";

/// `a - b`, or zero.
pub open spec fn sat_sub(a: int, b: int) -> int {
    if a > b { a - b } else { 0 }
}

/// The offset of the first newline of `s` from `i` on, if any.
pub open spec fn newline_from(s: Seq<u8>, i: int) -> Option<int>
    decreases s.len() - i,
{
    if i >= s.len() || i < 0 {
        None
    } else if s[i] == 10 {
        Some(i)
    } else {
        newline_from(s, i + 1)
    }
}

/// The length of the first paragraph of `s` from `i` on: up to the first
/// blank line.
pub open spec fn para_from(s: Seq<u8>, i: int) -> int
    decreases s.len() - i,
{
    if i + 1 >= s.len() || i < 0 {
        s.len() as int
    } else if s[i] == 10 && s[i + 1] == 10 {
        i
    } else {
        para_from(s, i + 1)
    }
}

/// At most the first two hundred bytes of `p`, cut at a character boundary.
pub open spec fn cut200(p: Seq<u8>) -> Seq<u8> {
    if p.len() <= 200 { p } else { p.take(floor_boundary(p, 200)) }
}

/// A middle section in the room left: whole when it fits; else its heading
/// with the start of its first paragraph when that fits; else its heading
/// alone. The room left after it comes second.
pub open spec fn reduced(s: Seq<u8>, room: int) -> (Seq<u8>, int) {
    if s.len() <= room {
        (s, room - s.len())
    } else {
        match newline_from(s, 0) {
            None => (Seq::empty(), room),
            Some(he) => {
                let heading = s.take(he);
                let rest = s.skip(he + 1);
                let summary = heading + bytes_of("\n"@) + cut200(rest.take(para_from(rest, 0))) + bytes_of(SECTION_NOTE@);
                if summary.len() <= room {
                    (summary, room - summary.len())
                } else {
                    (heading + bytes_of(HEADING_NOTE@), room)
                }
            },
        }
    }
}

/// The middle sections `k` up to `end`, each reduced in the room the ones
/// before it left.
pub open spec fn middle_from(b: Seq<u8>, secs: Seq<(int, int)>, k: int, end: int, room: int) -> Seq<u8>
    decreases end - k,
{
    if k >= end {
        Seq::empty()
    } else {
        let (p, r) = reduced(b.subrange(secs[k].0, secs[k].1), room);
        p + middle_from(b, secs, k + 1, end, r)
    }
}

/// Markdown text `b` cut to about `max` bytes: with two sections or fewer,
/// its first `max` bytes and a note; else the first and last sections whole
/// and the others reduced to fit what is left, less a margin of a hundred.
pub open spec fn truncated_bytes(b: Seq<u8>, max: int) -> Seq<u8> {
    let secs = md_sections(b);
    if secs.len() <= 2 {
        b.take(if max < b.len() { max } else { b.len() as int }) + bytes_of(TRUNCATION_NOTE@)
    } else {
        let first = b.subrange(secs[0].0, secs[0].1);
        let last = b.subrange(secs.last().0, secs.last().1);
        let room = sat_sub(sat_sub(sat_sub(max, first.len() as int), last.len() as int), 100);
        first + middle_from(b, secs, 1, secs.len() - 1, room) + last
    }
}

fn push_tracked(out: &mut String, s: &str)
    ensures
        bytes_of(final(out)@) == bytes_of(old(out)@) + s.spec_bytes(),
{
    push_str(out, s);
    proof {
        lemma_encode_concat(old(out)@, s@);
    }
}

proof fn lemma_newline_from(s: Seq<u8>, i: int, k: int)
    requires
        0 <= i <= k <= s.len(),
        forall|j: int| i <= j < k ==> s[j] != 10,
    ensures
        newline_from(s, i) == newline_from(s, k),
    decreases k - i,
{
    if i < k {
        lemma_newline_from(s, i + 1, k);
    }
}

proof fn lemma_para_from(s: Seq<u8>, i: int, k: int)
    requires
        0 <= i <= k,
        k + 1 <= s.len() || k == i,
        forall|j: int| i <= j < k ==> !(#[trigger] s[j] == 10 && s[j + 1] == 10),
    ensures
        para_from(s, i) == para_from(s, k),
    decreases k - i,
{
    if i < k {
        lemma_para_from(s, i + 1, k);
    }
}

/// A middle section reduced to fit `room` (see `reduced`).
fn reduce_section(section: &str, room: usize) -> (r: (String, usize))
    ensures
        (bytes_of(r.0@), r.1 as int) == reduced(section.spec_bytes(), room as int),
{
    let sb = section.as_bytes();
    let n = sb.len();
    proof {
        encode_utf8_valid_utf8(section@);
        is_char_boundary_start_end_of_seq(sb@);
    }
    if n <= room {
        let mut out = String::new();
        push_tracked(&mut out, section);
        assert(bytes_of(out@) =~= sb@);
        return (out, room - n);
    }
    let mut he: usize = 0;
    while he < n && sb[he] != 10u8
        invariant
            he <= n,
            n == sb@.len(),
            forall|j: int| 0 <= j < he ==> sb@[j] != 10,
        decreases n - he,
    {
        he = he + 1;
    }
    proof {
        lemma_newline_from(sb@, 0, he as int);
    }
    if he == n {
        let out = String::new();
        assert(bytes_of(out@) =~= Seq::<u8>::empty());
        return (out, room);
    }
    proof {
        lemma_after_newline(section@, he as int);
        is_char_boundary_iff_not_is_continuation_byte(sb@, he as int);
    }
    let heading = substr(section, 0, he);
    let rest = substr(section, he + 1, n);
    let rb = rest.as_bytes();
    let rn = rb.len();
    proof {
        encode_utf8_valid_utf8(rest@);
        is_char_boundary_start_end_of_seq(rb@);
    }
    let mut p: usize = 0;
    while p + 1 < rn && !(rb[p] == 10u8 && rb[p + 1] == 10u8)
        invariant
            rn == rb@.len(),
            p + 1 <= rn || (p == 0),
            forall|j: int| 0 <= j < p ==> !(#[trigger] rb@[j] == 10 && rb@[j + 1] == 10),
        decreases rn - p,
    {
        p = p + 1;
    }
    proof {
        lemma_para_from(rb@, 0, p as int);
    }
    let pl = if p + 1 < rn { p } else { rn };
    proof {
        if pl < rn {
            is_char_boundary_iff_not_is_continuation_byte(rb@, pl as int);
        }
    }
    let para = substr(rest, 0, pl);
    let tp = truncate_str(para, 200);
    let mut summary = String::new();
    push_tracked(&mut summary, heading);
    push_tracked(&mut summary, "\n");
    push_tracked(&mut summary, tp);
    push_tracked(&mut summary, SECTION_NOTE);
    let ghost rest_bytes = sb@.skip(he + 1);
    assert(rest.spec_bytes() =~= rest_bytes);
    assert(heading.spec_bytes() =~= sb@.take(he as int));
    assert(para.spec_bytes() =~= rest_bytes.take(para_from(rest_bytes, 0)));
    let slen = summary.as_str().as_bytes().len();
    if slen <= room {
        (summary, room - slen)
    } else {
        let mut short = String::new();
        push_tracked(&mut short, heading);
        push_tracked(&mut short, HEADING_NOTE);
        (short, room)
    }
}

/// Cuts markdown text to about `max_chars` bytes while keeping its shape
/// (see `truncated_bytes`).
pub fn intelligent_truncate(content: &str, max_chars: usize) -> (r: String)
    requires
        md_sections(content.spec_bytes()).len() <= 2 ==> is_char_boundary(
            content.spec_bytes(),
            if max_chars < content.spec_bytes().len() { max_chars as int } else { content.spec_bytes().len() as int },
        ),
    ensures
        bytes_of(r@) == truncated_bytes(content.spec_bytes(), max_chars as int),
{
    let b = content.as_bytes();
    let n = b.len();
    let sections = split_markdown_sections(content);
    let ghost secs = md_sections(b@);
    proof {
        encode_utf8_valid_utf8(content@);
        is_char_boundary_start_end_of_seq(b@);
    }
    let mut out = String::new();
    assert(bytes_of(out@) =~= Seq::<u8>::empty());
    if sections.len() <= 2 {
        let end = if max_chars < n { max_chars } else { n };
        let head = substr(content, 0, end);
        push_tracked(&mut out, head);
        push_tracked(&mut out, TRUNCATION_NOTE);
        assert(head.spec_bytes() =~= b@.take(end as int));
        return out;
    }
    let count = sections.len();
    let first = sections[0];
    let last = sections[count - 1];
    let fl = first.as_bytes().len();
    let ll = last.as_bytes().len();
    let r1 = if max_chars > fl { max_chars - fl } else { 0 };
    let r2 = if r1 > ll { r1 - ll } else { 0 };
    let mut room = if r2 > 100 { r2 - 100 } else { 0 };
    push_tracked(&mut out, first);
    let ghost room0 = room as int;
    let ghost first_bytes = b@.subrange(secs[0].0, secs[0].1);
    let mut k: usize = 1;
    while k < count - 1
        invariant
            count == secs.len(),
            count > 2,
            1 <= k <= count - 1,
            sections@.len() == count,
            forall|j: int| 0 <= j < count ==> (#[trigger] sections@[j]).spec_bytes() == b@.subrange(secs[j].0, secs[j].1),
            bytes_of(out@) + middle_from(b@, secs, k as int, count - 1, room as int)
                == first_bytes + middle_from(b@, secs, 1, count - 1, room0),
        decreases count - 1 - k,
    {
        let ghost before = bytes_of(out@);
        let (piece, left) = reduce_section(sections[k], room);
        push_tracked(&mut out, piece.as_str());
        proof {
            assert(middle_from(b@, secs, k as int, count - 1, room as int)
                == bytes_of(piece@) + middle_from(b@, secs, k + 1, count - 1, left as int));
            assert(bytes_of(out@) + middle_from(b@, secs, k + 1, count - 1, left as int)
                =~= before + middle_from(b@, secs, k as int, count - 1, room as int));
        }
        room = left;
        k = k + 1;
    }
    push_tracked(&mut out, last);
    assert(middle_from(b@, secs, k as int, count - 1, room as int) =~= Seq::<u8>::empty());
    out
}

} // verus!
