//! The shared memory file: a markdown page of sections, one per worker,
//! that every musician reads before starting and writes after finishing.
//! The file itself is read and written by the caller; this module computes
//! its new content and what is shown of it.
use crate::text::{chars_of, first_occurrence, has_prefix, occurs_at, push_char, push_str, seq_contains, trail_ws, views};
use vstd::prelude::*;
use vstd::string::StringSliceAdditionalSpecFns;

verus! {

broadcast use vstd::string::group_string_axioms;

/// What a new shared memory file holds.
pub const MEMORY_HEADER: &'static str = "# Shared Memory\n\n";

/// Section count and size of the shared memory, for display.
#[derive(Debug, Clone, Copy, PartialEq, Eq, Structural)]
pub struct MemoryStats {
    pub sections: usize,
    pub size_bytes: usize,
}

/// `s` without trailing whitespace.
pub open spec fn trim_end(s: Seq<char>) -> Seq<char> {
    s.take(s.len() - trail_ws(s))
}

/// The header line of a section.
pub open spec fn section_header(section: Seq<char>) -> Seq<char> {
    "## "@ + section
}

/// `h` stands as a whole line of `s` starting at position `i`.
pub open spec fn header_line_at(s: Seq<char>, h: Seq<char>, i: int) -> bool {
    &&& occurs_at(s, h, i)
    &&& (i == 0 || s[i - 1] == '\n')
    &&& (i + h.len() == s.len() || s[i + h.len()] == '\n')
}

/// The first position at or after `j` where `h` stands as a whole line of
/// `s`, or -1.
pub open spec fn header_line_from(s: Seq<char>, h: Seq<char>, j: int) -> int
    decreases s.len() + 1 - j,
{
    if j < 0 || j > s.len() {
        -1
    } else if header_line_at(s, h, j) {
        j
    } else {
        header_line_from(s, h, j + 1)
    }
}

/// The memory after writing `content` under `section`: the first section
/// whose header line is exactly "## " and the section's name is replaced up
/// to the next section header or the end; where there is none, the section
/// is added at the end, after a blank line.
pub open spec fn appended(existing: Seq<char>, section: Seq<char>, content: Seq<char>) -> Seq<char> {
    let h = section_header(section);
    let start = header_line_from(existing, h, 0);
    if start >= 0 {
        let after = start + h.len();
        let rest = existing.skip(after);
        let end = if seq_contains(rest, "\n## "@) { after + first_occurrence(rest, "\n## "@) } else { existing.len() as int };
        existing.take(start) + h + "\n"@ + content + "\n"@ + existing.skip(end)
    } else {
        trim_end(existing) + "\n\n"@ + h + "\n"@ + content + "\n"@
    }
}

/// The first position where `h` stands as a whole line of `cs`.
fn find_header_line(cs: &Vec<char>, h: &Vec<char>) -> (r: Option<usize>)
    ensures
        match r {
            Some(i) => i as int == header_line_from(cs@, h@, 0) && header_line_at(cs@, h@, i as int),
            None => header_line_from(cs@, h@, 0) == -1,
        },
{
    let n = cs.len();
    let mut j: usize = 0;
    while j <= n
        invariant
            j <= n + 1,
            n == cs@.len(),
            header_line_from(cs@, h@, 0) == header_line_from(cs@, h@, j as int),
        decreases n + 1 - j,
    {
        let fits = h.len() <= n - j;
        if fits && crate::text::matches_at(cs, h, j) {
            let hl = h.len();
            let before_ok = j == 0 || cs[j - 1] == '\n';
            let after_ok = j + hl == n || cs[j + hl] == '\n';
            if before_ok && after_ok {
                return Some(j);
            }
        }
        if j == n {
            assert(header_line_from(cs@, h@, (j + 1) as int) == -1);
            return None;
        }
        j = j + 1;
    }
    None
}

fn push_range(out: &mut String, cs: &Vec<char>, a: usize, b: usize)
    requires
        a <= b <= cs@.len(),
    ensures
        final(out)@ == old(out)@ + cs@.subrange(a as int, b as int),
{
    let mut i = a;
    while i < b
        invariant
            a <= i <= b <= cs@.len(),
            out@ == old(out)@ + cs@.subrange(a as int, i as int),
        decreases b - i,
    {
        push_char(out, cs[i]);
        i = i + 1;
        assert(out@ =~= old(out)@ + cs@.subrange(a as int, i as int));
    }
}

/// Writes `content` under `section` (see `appended`).
pub fn append_section(existing: &str, section: &str, content: &str) -> (r: String)
    ensures
        r@ == appended(existing@, section@, content@),
{
    let cs = chars_of(existing);
    let mut h = String::new();
    proof {
        reveal_strlit("");
    }
    push_str(&mut h, "## ");
    push_str(&mut h, section);
    let hc = chars_of(h.as_str());
    let mut out = String::new();
    match find_header_line(&cs, &hc) {
        Some(start) => {
            assert(occurs_at(cs@, hc@, start as int));
            assert(start + hc@.len() <= cs@.len());
            let hl = hc.len();
            let cl = cs.len();
            assert(start + hl <= cl);
            let after = start + hl;
            let mut rest: Vec<char> = Vec::new();
            let mut i = after;
            while i < cs.len()
                invariant
                    after <= i <= cs@.len(),
                    rest@ == cs@.subrange(after as int, i as int),
                decreases cs@.len() - i,
            {
                rest.push(cs[i]);
                i = i + 1;
                assert(rest@ =~= cs@.subrange(after as int, i as int));
            }
            assert(rest@ =~= cs@.skip(after as int));
            let mut next = String::new();
            push_str(&mut next, "\n## ");
            let nc = chars_of(next.as_str());
            let end = match crate::text::find_chars(&rest, &nc) {
                Some(p) => after + p,
                None => cs.len(),
            };
            push_range(&mut out, &cs, 0, start);
            push_str(&mut out, h.as_str());
            push_str(&mut out, "\n");
            push_str(&mut out, content);
            push_str(&mut out, "\n");
            push_range(&mut out, &cs, end, cs.len());
            assert(cs@.subrange(0, start as int) =~= cs@.take(start as int));
            assert(cs@.subrange(end as int, cs@.len() as int) =~= cs@.skip(end as int));
        },
        None => {
            let t = crate::text::trim_end_chars(&cs);
            push_range(&mut out, &t, 0, t.len());
            assert(t@.subrange(0, t@.len() as int) =~= t@);
            push_str(&mut out, "\n\n");
            push_str(&mut out, h.as_str());
            push_str(&mut out, "\n");
            push_str(&mut out, content);
            push_str(&mut out, "\n");
        },
    }
    out
}


/// The pieces of `s` between the occurrences of `pat`, left to right, as
/// `str::split` gives them.
pub open spec fn split_on(s: Seq<char>, pat: Seq<char>) -> Seq<Seq<char>>
    decreases s.len(),
{
    if pat.len() > 0 && seq_contains(s, pat) && 0 <= first_occurrence(s, pat) {
        let f = first_occurrence(s, pat);
        if f + pat.len() <= s.len() {
            seq![s.take(f)] + split_on(s.skip(f + pat.len()), pat)
        } else {
            seq![s]
        }
    } else {
        seq![s]
    }
}

/// The size of a text in bytes.
pub open spec fn byte_len(s: Seq<char>) -> nat {
    vstd::utf8::encode_utf8(s).len()
}

/// The sections kept, taking the pieces `parts[..i]` from the back onto
/// `kept`, each after a section header mark, while they fit within `max`
/// bytes (the last piece always).
pub open spec fn kept_from_back(parts: Seq<Seq<char>>, i: int, kept: Seq<char>, max: nat) -> Seq<char>
    decreases i,
{
    if i <= 0 {
        kept
    } else {
        let cand = "\n## "@ + parts[i - 1] + kept;
        if byte_len(cand) > max && kept.len() > 0 {
            kept
        } else {
            kept_from_back(parts, i - 1, cand, max)
        }
    }
}

/// The mark put before a truncated memory.
pub open spec fn truncation_mark() -> Seq<char> {
    "[...earlier entries truncated]"@
}

/// The sections taken from the back of `parts[..i]` onto `kept`, each after
/// a section header mark, while the result stays within `budget` bytes
/// (possibly none).
pub open spec fn kept_within(parts: Seq<Seq<char>>, i: int, kept: Seq<char>, budget: nat) -> Seq<char>
    decreases i,
{
    if i <= 0 {
        kept
    } else {
        let cand = "\n## "@ + parts[i - 1] + kept;
        if byte_len(cand) > budget {
            kept
        } else {
            kept_within(parts, i - 1, cand, budget)
        }
    }
}

/// The latest whole sections of a memory, cut for a limit of `max` bytes:
/// after the truncation mark, the latest sections that fit with the mark
/// within the limit; where not even the latest fits with the mark, the
/// latest sections that fit within the limit without it (at least the
/// latest one).
pub open spec fn latest_sections(full: Seq<char>, max: nat) -> Seq<char> {
    let ps = split_on(full, "\n## "@);
    let m = byte_len(truncation_mark());
    let k1 = if max >= m { kept_within(ps, ps.len() as int, Seq::empty(), (max - m) as nat) } else { Seq::empty() };
    if k1.len() > 0 {
        truncation_mark() + k1
    } else {
        kept_from_back(ps, ps.len() as int, Seq::empty(), max)
    }
}

/// How many of its last bytes a memory without sections keeps for a limit
/// of `max` bytes: what the mark and a blank line leave, or the whole limit
/// when they do not fit.
pub open spec fn plain_budget(max: nat) -> nat {
    let m = byte_len(truncation_mark() + "\n\n"@);
    if max >= m { (max - m) as nat } else { max }
}

/// The bytes of a concatenation are the bytes of its parts.
pub proof fn lemma_encode_concat(a: Seq<char>, b: Seq<char>)
    ensures
        vstd::utf8::encode_utf8(a + b) == vstd::utf8::encode_utf8(a) + vstd::utf8::encode_utf8(b),
        byte_len(a + b) == byte_len(a) + byte_len(b),
    decreases a.len(),
{
    if a.len() == 0 {
        assert(a + b =~= b);
        assert(vstd::utf8::encode_utf8(a) =~= Seq::<u8>::empty());
        assert(vstd::utf8::encode_utf8(a) + vstd::utf8::encode_utf8(b) =~= vstd::utf8::encode_utf8(b));
    } else {
        lemma_encode_concat(a.drop_first(), b);
        assert((a + b).drop_first() =~= a.drop_first() + b);
        assert((a + b)[0] == a[0]);
        assert(vstd::utf8::encode_utf8(a + b) =~= vstd::utf8::encode_utf8(a) + vstd::utf8::encode_utf8(b));
    }
}

proof fn lemma_kept_within(parts: Seq<Seq<char>>, i: int, kept: Seq<char>, budget: nat)
    requires
        byte_len(kept) <= budget,
    ensures
        byte_len(kept_within(parts, i, kept, budget)) <= budget,
    decreases i,
{
    if i > 0 {
        let cand = "\n## "@ + parts[i - 1] + kept;
        if byte_len(cand) <= budget {
            lemma_kept_within(parts, i - 1, cand, budget);
        }
    }
}

proof fn lemma_kept_from_back(parts: Seq<Seq<char>>, i: int, kept: Seq<char>, max: nat)
    requires
        kept.len() > 0,
    ensures
        byte_len(kept) <= max ==> byte_len(kept_from_back(parts, i, kept, max)) <= max,
        byte_len(kept) > max ==> kept_from_back(parts, i, kept, max) == kept,
    decreases i,
{
    if i > 0 {
        let cand = "\n## "@ + parts[i - 1] + kept;
        lemma_encode_concat("\n## "@ + parts[i - 1], kept);
        if !(byte_len(cand) > max) {
            lemma_kept_from_back(parts, i - 1, cand, max);
        }
    }
}

/// The memory cut for a prompt stays within the limit, unless its latest
/// section alone (after its header mark) exceeds it; then that section is
/// all that is kept.
pub proof fn lemma_latest_sections_fit(full: Seq<char>, max: nat)
    requires
        split_on(full, "\n## "@).len() > 0,
    ensures
        ({
            let ps = split_on(full, "\n## "@);
            let last = "\n## "@ + ps.last();
            byte_len(latest_sections(full, max)) <= max || (byte_len(last) > max && latest_sections(full, max) == last)
        }),
{
    let ps = split_on(full, "\n## "@);
    let m = byte_len(truncation_mark());
    let n = ps.len() as int;
    if max >= m {
        let k1 = kept_within(ps, n, Seq::empty(), (max - m) as nat);
        assert(vstd::utf8::encode_utf8(Seq::<char>::empty()) =~= Seq::<u8>::empty());
        lemma_kept_within(ps, n, Seq::empty(), (max - m) as nat);
        lemma_encode_concat(truncation_mark(), k1);
    }
    let last = "\n## "@ + ps[n - 1];
    assert(last + Seq::<char>::empty() =~= last);
    assert(ps.last() == ps[n - 1]);
    if last.len() > 0 {
        lemma_kept_from_back(ps, n - 1, last, max);
    }
    assert(kept_from_back(ps, n, Seq::empty(), max) == kept_from_back(ps, n - 1, last, max));
}

proof fn lemma_split_step(s: Seq<char>, pat: Seq<char>, f: int)
    requires
        pat.len() > 0,
        occurs_at(s, pat, f),
        f == first_occurrence(s, pat),
    ensures
        split_on(s, pat) == seq![s.take(f)] + split_on(s.skip(f + pat.len()), pat),
{
    assert(seq_contains(s, pat));
}

proof fn lemma_split_none(s: Seq<char>, pat: Seq<char>)
    requires
        !seq_contains(s, pat),
    ensures
        split_on(s, pat) == seq![s],
{
}

fn chars_from(v: &Vec<char>, from: usize) -> (r: Vec<char>)
    requires
        from <= v@.len(),
    ensures
        r@ == v@.skip(from as int),
{
    let mut out: Vec<char> = Vec::new();
    let mut i = from;
    while i < v.len()
        invariant
            from <= i <= v@.len(),
            out@ == v@.subrange(from as int, i as int),
        decreases v@.len() - i,
    {
        out.push(v[i]);
        i = i + 1;
        assert(out@ =~= v@.subrange(from as int, i as int));
    }
    assert(out@ =~= v@.skip(from as int));
    out
}

#[verifier::rlimit(40)]
fn split_sections(full: &str) -> (r: Vec<String>)
    ensures
        views(r@) == split_on(full@, "\n## "@),
        r@.len() > 0,
{
    let mut p = String::new();
    proof {
        reveal_strlit("");
        reveal_strlit("\n## ");
    }
    push_str(&mut p, "\n## ");
    let pc = chars_of(p.as_str());
    assert(pc@.len() == 4);
    let mut rest = chars_of(full);
    let mut out: Vec<String> = Vec::new();
    loop
        invariant
            pc@ == "\n## "@,
            pc@.len() == 4,
            views(out@) + split_on(rest@, pc@) == split_on(full@, pc@),
        decreases rest@.len(),
    {
        match crate::text::find_chars(&rest, &pc) {
            Some(f) => {
                assert(occurs_at(rest@, pc@, f as int));
                let ghost before = rest@;
                let head = crate::text::string_from_chars(vstd::slice::slice_subrange(rest.as_slice(), 0, f));
                assert(f + pc@.len() <= rest@.len());
                let rl = rest.len();
                assert(f + 4 <= rl);
                let tail = chars_from(&rest, f + 4);
                assert(before.subrange(0, f as int) =~= before.take(f as int));
                proof {
                    lemma_split_step(before, pc@, f as int);
                }
                let ghost prev = views(out@);
                out.push(head);
                assert(views(out@) =~= prev.push(before.take(f as int)));
                rest = tail;
                assert(views(out@) + split_on(rest@, pc@) =~= prev + split_on(before, pc@));
            },
            None => {
                let whole = crate::text::string_from_chars(rest.as_slice());
                let ghost prev = views(out@);
                proof {
                    lemma_split_none(rest@, pc@);
                }
                out.push(whole);
                assert(views(out@) =~= prev.push(rest@));
                assert(views(out@) =~= split_on(full@, pc@));
                return out;
            },
        }
    }
}

/// The memory cut for a prompt to a limit of `max_chars` bytes: whole
/// when it fits; else, where it has sections, its latest whole sections
/// (see `latest_sections`); where it has none, its last bytes after the
/// truncation mark and a blank line (see `plain_budget`).
pub fn read_truncated(full: &str, max_chars: usize) -> (r: String)
    requires
        byte_len(full@) > max_chars && !seq_contains(full@, "\n## "@) ==> vstd::utf8::is_char_boundary(
            full.spec_bytes(),
            full.spec_bytes().len() - plain_budget(max_chars as nat),
        ),
    ensures
        byte_len(full@) <= max_chars ==> r@ == full@,
        byte_len(full@) > max_chars && seq_contains(full@, "\n## "@) ==> r@ == latest_sections(full@, max_chars as nat),
        byte_len(full@) > max_chars && !seq_contains(full@, "\n## "@) ==> exists|t: Seq<char>|
            vstd::utf8::encode_utf8(t) == full.spec_bytes().skip(full.spec_bytes().len() - plain_budget(max_chars as nat))
            && r@ == (if max_chars >= byte_len(truncation_mark() + "\n\n"@) { truncation_mark() + "\n\n"@ + t } else { t }),
        !seq_contains(full@, "\n## "@) ==> byte_len(r@) <= max_chars || r@ == full@,
        byte_len(r@) <= max_chars || r@ == full@ || (r@ == "\n## "@ + split_on(full@, "\n## "@).last()
            && byte_len(r@) > max_chars),
{
    let mut out = String::new();
    proof {
        reveal_strlit("");
        reveal_strlit("\n## ");
        reveal_strlit("[...earlier entries truncated]");
        reveal_strlit("[...earlier entries truncated]\n\n");
        reveal_strlit("\n\n");
    }
    assert("[...earlier entries truncated]\n\n"@ =~= truncation_mark() + "\n\n"@);
    let len = full.as_bytes().len();
    if len <= max_chars {
        push_str(&mut out, full);
        return out;
    }
    let mark = "[...earlier entries truncated]";
    let mark_len = mark.as_bytes().len();
    if !crate::text::contains_str(full, "\n## ") {
        let lead = "[...earlier entries truncated]\n\n";
        let lead_len = lead.as_bytes().len();
        let budget = if max_chars >= lead_len { max_chars - lead_len } else { max_chars };
        let start = len - budget;
        let (_, tail) = full.split_at(start);
        if max_chars >= lead_len {
            push_str(&mut out, lead);
        }
        push_str(&mut out, tail);
        proof {
            assert(full.spec_bytes().subrange(start as int, len as int) =~= full.spec_bytes().skip(start as int));
            if max_chars >= lead_len {
                assert(out@ =~= truncation_mark() + "\n\n"@ + tail@);
                lemma_encode_concat(truncation_mark() + "\n\n"@, tail@);
            } else {
                assert(out@ =~= tail@);
            }
        }
        return out;
    }
    let parts = split_sections(full);
    proof {
        lemma_latest_sections_fit(full@, max_chars as nat);
    }
    if max_chars >= mark_len {
        let within = keep_within(&parts, max_chars - mark_len);
        if crate::text::chars_of(within.as_str()).len() > 0 {
            push_str(&mut out, mark);
            push_str(&mut out, within.as_str());
            return out;
        }
    }
    keep_latest(&parts, max_chars)
}

fn keep_within(parts: &Vec<String>, budget: usize) -> (r: String)
    ensures
        r@ == kept_within(views(parts@), parts@.len() as int, Seq::empty(), budget as nat),
{
    let ghost ps = views(parts@);
    let mut kept = String::new();
    proof {
        reveal_strlit("");
        reveal_strlit("\n## ");
    }
    let mut i = parts.len();
    loop
        invariant
            i <= parts@.len(),
            ps == views(parts@),
            kept_within(ps, ps.len() as int, Seq::empty(), budget as nat) == kept_within(ps, i as int, kept@, budget as nat),
        decreases i,
    {
        if i == 0 {
            return kept;
        }
        let mut cand = String::new();
        push_str(&mut cand, "\n## ");
        push_str(&mut cand, parts[i - 1].as_str());
        push_str(&mut cand, kept.as_str());
        assert(cand@ == "\n## "@ + ps[i - 1] + kept@);
        if cand.as_str().as_bytes().len() > budget {
            return kept;
        }
        kept = cand;
        i = i - 1;
    }
}

fn keep_latest(parts: &Vec<String>, max_chars: usize) -> (r: String)
    ensures
        r@ == kept_from_back(views(parts@), parts@.len() as int, Seq::empty(), max_chars as nat),
{
    let ghost ps = views(parts@);
    let mut kept = String::new();
    proof {
        reveal_strlit("");
        reveal_strlit("\n## ");
    }
    let mut i = parts.len();
    loop
        invariant
            i <= parts@.len(),
            ps == views(parts@),
            kept_from_back(ps, ps.len() as int, Seq::empty(), max_chars as nat) == kept_from_back(ps, i as int, kept@, max_chars as nat),
        decreases i,
    {
        if i == 0 {
            return kept;
        }
        let mut cand = String::new();
        push_str(&mut cand, "\n## ");
        push_str(&mut cand, parts[i - 1].as_str());
        push_str(&mut cand, kept.as_str());
        assert(cand@ == "\n## "@ + ps[i - 1] + kept@);
        let kept_empty = crate::text::chars_of(kept.as_str()).len() == 0;
        if cand.as_str().as_bytes().len() > max_chars && !kept_empty {
            return kept;
        }
        kept = cand;
        i = i - 1;
    }
}

/// How many times `pat` occurs in `s` at a position below `n`.
pub open spec fn occurrences_upto(s: Seq<char>, pat: Seq<char>, n: int) -> nat
    decreases n,
{
    if n <= 0 { 0 } else { occurrences_upto(s, pat, n - 1) + if occurs_at(s, pat, n - 1) { 1nat } else { 0nat } }
}

/// The sections of the memory: its section headers after a newline, and
/// one more where it starts with a header. (The pattern cannot overlap
/// itself, so counting every occurrence counts the disjoint ones.)
pub open spec fn section_count(c: Seq<char>) -> nat {
    occurrences_upto(c, "\n## "@, c.len() as int) + if has_prefix(c, "## "@) { 1nat } else { 0nat }
}

/// The section count and byte size of the memory.
pub fn memory_stats(content: &str) -> (r: MemoryStats)
    ensures
        r.sections == section_count(content@),
        r.size_bytes == content.spec_bytes().len(),
{
    let cs = chars_of(content);
    let mut p = String::new();
    proof {
        reveal_strlit("");
    }
    push_str(&mut p, "\n## ");
    let pc = chars_of(p.as_str());
    proof {
        reveal_strlit("\n## ");
    }
    assert(pc@.len() == 4);
    let mut n: usize = 0;
    let mut i: usize = 0;
    while i < cs.len()
        invariant
            i <= cs@.len(),
            n <= i,
            n == 0 || n + 3 <= cs@.len(),
            n == occurrences_upto(cs@, pc@, i as int),
            pc@ == "\n## "@,
            pc@.len() == 4,
        decreases cs@.len() - i,
    {
        if pc.len() <= cs.len() - i && crate::text::matches_at(&cs, &pc, i) {
            n = n + 1;
        } else {
            proof {
                if i + pc.len() > cs.len() {
                    assert(!occurs_at(cs@, pc@, i as int));
                }
            }
        }
        i = i + 1;
    }
    let starts = crate::text::starts_with_str(content, "## ");
    let sections = if starts { n + 1 } else { n };
    MemoryStats { sections, size_bytes: content.as_bytes().len() }
}

/// The memory written after byte `offset`, and the offset to read from
/// next: nothing and the same offset when nothing was written after it.
pub fn entries_since(full: &str, offset: usize) -> (r: (String, usize))
    requires
        offset < full.spec_bytes().len() ==> vstd::utf8::is_char_boundary(full.spec_bytes(), offset as int),
    ensures
        full.spec_bytes().len() <= offset ==> r.0@.len() == 0 && r.1 == offset,
        full.spec_bytes().len() > offset ==> vstd::utf8::encode_utf8(r.0@) == full.spec_bytes().skip(offset as int)
            && r.1 == full.spec_bytes().len(),
{
    let len = full.as_bytes().len();
    let mut out = String::new();
    proof {
        reveal_strlit("");
    }
    if len <= offset {
        return (out, offset);
    }
    let (_, tail) = full.split_at(offset);
    push_str(&mut out, tail);
    assert(out@ =~= tail@);
    assert(full.spec_bytes().subrange(offset as int, len as int) =~= full.spec_bytes().skip(offset as int));
    (out, len)
}

} // verus!
