//! The widths of the musician columns: an even split when it fits (or with
//! three musicians or fewer); else inactive musicians collapse to a strip
//! and the active ones share the rest.
use crate::state::MusicianStatus;
use crate::tui::COLLAPSED_WIDTH;
use vstd::prelude::*;

verus! {

/// A musician that keeps a full column when space is tight.
pub open spec fn is_active(s: MusicianStatus) -> bool {
    s == MusicianStatus::Running || s == MusicianStatus::Waiting
}

/// How many of the first `n` musicians are active.
pub open spec fn active_upto(s: Seq<MusicianStatus>, n: int) -> nat
    decreases n,
{
    if n <= 0 { 0 } else { active_upto(s, n - 1) + if is_active(s[n - 1]) { 1nat } else { 0nat } }
}

/// The position of the last active musician among the first `n` (-1 if
/// none).
pub open spec fn last_active_upto(s: Seq<MusicianStatus>, n: int) -> int
    decreases n,
{
    if n <= 0 { -1 } else if is_active(s[n - 1]) { n - 1 } else { last_active_upto(s, n - 1) }
}

/// The sum of the widths.
pub open spec fn width_sum(w: Seq<u16>) -> nat
    decreases w.len(),
{
    if w.len() == 0 { 0 } else { width_sum(w.drop_last()) + (w.last() as nat) }
}

/// Every column `w`, the last one `extra` wider.
pub open spec fn even_split(count: nat, w: u16, extra: int) -> Seq<u16> {
    Seq::new(count, |i: int| if i == count - 1 { (w + extra) as u16 } else { w })
}

/// Before any adjustment: active musicians get `max(min, share)`, where
/// `share` divides what the collapsed strips leave among the active ones;
/// the others get the collapsed width.
pub open spec fn base_widths(s: Seq<MusicianStatus>, total: u16, min: u16) -> Seq<u16> {
    let active = active_upto(s, s.len() as int);
    let inactive = s.len() - active;
    let left: int = if total >= inactive * COLLAPSED_WIDTH { total - inactive * COLLAPSED_WIDTH } else { 0 };
    let share: int = left / (active as int);
    let w = if min >= share { min as int } else { share };
    Seq::new(s.len(), |i: int| if is_active(s[i]) { w as u16 } else { COLLAPSED_WIDTH })
}

/// The column widths, before the proportional scaling that overflowing
/// columns need.
pub enum ColumnWidths {
    /// The widths are final.
    Done(Vec<u16>),
    /// The widths sum to `used`, more than the room: they are to be scaled
    /// down to it, the rounding remainder going to the last active column.
    Overflow { widths: Vec<u16>, used: u32, last_active: usize },
}

/// `r` is the plan of the widths of musicians `s` over `total` columns with
/// columns at least `min` wide where they can be.
pub open spec fn column_plan(r: ColumnWidths, s: Seq<MusicianStatus>, total: u16, min: u16) -> bool {
    let count = s.len();
    let even: int = if count > 0 { (total as int) / (count as int) } else { 0 };
    let base = base_widths(s, total, min);
    let used = width_sum(base);
    let last = last_active_upto(s, count as int);
    if count == 0 {
        r matches ColumnWidths::Done(w) && w@.len() == 0
    } else if total < count * 3 {
        r matches ColumnWidths::Done(w) && w@ == Seq::new(count, |i: int| (if even >= 1 { even } else { 1 }) as u16)
    } else if even >= min || count <= 3 || active_upto(s, count as int) == 0 {
        r matches ColumnWidths::Done(w) && w@ == even_split(count, even as u16, total - even * count)
    } else if used < total {
        r matches ColumnWidths::Done(w) && w@ == base.update(last, (base[last] + (total - used)) as u16)
    } else if used == total {
        r matches ColumnWidths::Done(w) && w@ == base
    } else {
        r matches ColumnWidths::Overflow { widths, used: u, last_active } && widths@ == base && u == used
            && last_active == last
    }
}

proof fn lemma_active_bounds(s: Seq<MusicianStatus>, n: int)
    requires
        0 <= n <= s.len(),
    ensures
        active_upto(s, n) <= n,
        -1 <= last_active_upto(s, n) < n,
        active_upto(s, n) > 0 <==> last_active_upto(s, n) >= 0,
        last_active_upto(s, n) >= 0 ==> is_active(s[last_active_upto(s, n)]),
    decreases n,
{
    if n > 0 {
        lemma_active_bounds(s, n - 1);
    }
}

proof fn lemma_sum_ge(w: Seq<u16>, i: int)
    requires
        0 <= i < w.len(),
    ensures
        w[i] <= width_sum(w),
    decreases w.len(),
{
    if i < w.len() - 1 {
        lemma_sum_ge(w.drop_last(), i);
    }
}

/// Plans the widths of the musician columns (see `column_plan`).
pub fn plan_column_widths(statuses: &[MusicianStatus], total_width: u16, min_col_width: u16) -> (r: ColumnWidths)
    requires
        statuses@.len() <= u16::MAX,
    ensures
        column_plan(r, statuses@, total_width, min_col_width),
{
    let count = statuses.len();
    if count == 0 {
        return ColumnWidths::Done(Vec::new());
    }
    let c16 = count as u16;
    if (total_width as u64) < (count as u64) * 3 {
        let q = total_width / c16;
        let w = if q >= 1 { q } else { 1 };
        let mut v: Vec<u16> = Vec::new();
        let mut i: usize = 0;
        while i < count
            invariant
                i <= count,
                v@ == Seq::new(i as nat, |k: int| w),
            decreases count - i,
        {
            v.push(w);
            i = i + 1;
            assert(v@ =~= Seq::new(i as nat, |k: int| w));
        }
        assert(v@ =~= Seq::new(count as nat, |k: int| (if (total_width as int) / (count as int) >= 1 { (total_width as int) / (count as int) } else { 1 }) as u16));
        return ColumnWidths::Done(v);
    }
    let even = total_width / c16;
    assert(even * c16 <= total_width && total_width - even * c16 < c16 && even <= even * c16) by (nonlinear_arith)
        requires
            even == total_width / c16,
            c16 > 0,
    ;
    // count the active musicians and find the last one
    let mut active: u16 = 0;
    let mut last: usize = 0;
    let mut any = false;
    let mut k: usize = 0;
    while k < count
        invariant
            k <= count,
            count == statuses@.len(),
            count <= u16::MAX,
            active == active_upto(statuses@, k as int),
            any == (active > 0),
            any ==> last as int == last_active_upto(statuses@, k as int),
            active_upto(statuses@, k as int) <= k,
        decreases count - k,
    {
        proof {
            lemma_active_bounds(statuses@, k as int);
        }
        if statuses[k] == MusicianStatus::Running || statuses[k] == MusicianStatus::Waiting {
            active = active + 1;
            last = k;
            any = true;
        }
        k = k + 1;
    }
    proof {
        lemma_active_bounds(statuses@, count as int);
    }
    if even >= min_col_width || count <= 3 || !any {
        let mut v: Vec<u16> = Vec::new();
        let mut i: usize = 0;
        let extra = total_width - even * c16;
        while i < count
            invariant
                i <= count,
                count > 0,
                even as int + extra as int <= total_width,
                v@ == Seq::new(i as nat, |j: int| if j == count - 1 { (even + extra) as u16 } else { even }),
            decreases count - i,
        {
            if i == count - 1 {
                v.push(even + extra);
            } else {
                v.push(even);
            }
            i = i + 1;
            assert(v@ =~= Seq::new(i as nat, |j: int| if j == count - 1 { (even + extra) as u16 } else { even }));
        }
        assert(v@ =~= even_split(count as nat, even, total_width - even * count));
        return ColumnWidths::Done(v);
    }
    let inactive: u16 = c16 - active;
    let strips: u32 = (inactive as u32) * (COLLAPSED_WIDTH as u32);
    let left: u32 = if (total_width as u32) >= strips { total_width as u32 - strips } else { 0 };
    let share: u32 = left / (active as u32);
    let w: u16 = if (min_col_width as u32) >= share { min_col_width } else { share as u16 };
    let ghost base = base_widths(statuses@, total_width, min_col_width);
    let mut v: Vec<u16> = Vec::new();
    let mut used: u32 = 0;
    let mut i: usize = 0;
    while i < count
        invariant
            i <= count,
            count == statuses@.len(),
            count <= u16::MAX,
            base == base_widths(statuses@, total_width, min_col_width),
            forall|j: int| 0 <= j < count ==> #[trigger] base[j] == if is_active(statuses@[j]) { w } else { COLLAPSED_WIDTH },
            v@ == base.take(i as int),
            used == width_sum(v@),
            used <= i * 65535,
        decreases count - i,
    {
        let x = if statuses[i] == MusicianStatus::Running || statuses[i] == MusicianStatus::Waiting { w } else { COLLAPSED_WIDTH };
        v.push(x);
        assert(v@.drop_last() =~= base.take(i as int));
        used = used + x as u32;
        i = i + 1;
        assert(v@ =~= base.take(i as int));
    }
    assert(base.take(count as int) =~= base);
    if used < total_width as u32 {
        let add = total_width - used as u16;
        let cur = v[last];
        proof {
            lemma_sum_ge(v@, last as int);
        }
        assert(cur <= used);
        v.set(last, cur + add);
        ColumnWidths::Done(v)
    } else if used == total_width as u32 {
        ColumnWidths::Done(v)
    } else {
        ColumnWidths::Overflow { widths: v, used, last_active: last }
    }
}

} // verus!
