//! Parsing of the kernel's CPU-time and memory-information tables.
use crate::text::{
    all_digits, copy_range, digits_value, field_bounds, nth_field, skip_spaces, skip_spaces_from,
    trim_end, trim_end_from,
};
use vstd::prelude::*;

verus! {

/// End of the line that starts at `i`: the index of its line break, or the
/// end of the text.
pub open spec fn line_end(s: Seq<u8>, i: int) -> int
    decreases s.len() - i,
{
    if i < 0 || i >= s.len() {
        i
    } else if s[i] == 10u8 {
        i
    } else {
        line_end(s, i + 1)
    }
}

/// A line starts at `a` and begins with `cpu `.
pub open spec fn is_cpu_line(s: Seq<u8>, a: int) -> bool {
    &&& 0 <= a
    &&& a == 0 || s[a - 1] == 10u8
    &&& a + 4 <= s.len()
    &&& s[a] == 99u8 && s[a + 1] == 112u8 && s[a + 2] == 117u8 && s[a + 3] == 32u8
}

/// Start of the first line at or after `i` that begins with `cpu `.
pub open spec fn cpu_line_from(s: Seq<u8>, i: int) -> Option<int>
    decreases s.len() - i,
{
    if i < 0 || i >= s.len() {
        None
    } else if is_cpu_line(s, i) {
        Some(i)
    } else {
        cpu_line_from(s, i + 1)
    }
}

/// An unsigned decimal with an optional `+` in `s[lo..hi]`, when it fits a `u64`.
pub open spec fn u64_of(s: Seq<u8>, lo: int, hi: int) -> Option<u64> {
    let start = if lo < hi && s[lo] == 43u8 { lo + 1 } else { lo };
    if all_digits(s, start, hi) && digits_value(s, start, hi) <= u64::MAX {
        Some(digits_value(s, start, hi) as u64)
    } else {
        None
    }
}

/// The value of a field, 0 when it is not an unsigned decimal.
pub open spec fn u64_or_zero(s: Seq<u8>, f: (int, int)) -> u64 {
    match u64_of(s, f.0, f.1) {
        Some(v) => v,
        None => 0,
    }
}

/// Aggregate CPU times, in clock ticks, from the `cpu ` line.
#[derive(Clone, Copy, Debug, PartialEq, Eq, Structural)]
pub struct CpuTimes {
    pub user: u64,
    pub nice: u64,
    pub system: u64,
    pub idle: u64,
    /// Present when the line has a sixth field.
    pub iowait: Option<u64>,
}

/// The CPU times of the first `cpu ` line, when it has at least five fields.
pub open spec fn cpu_times_of(s: Seq<u8>) -> Option<CpuTimes> {
    match cpu_line_from(s, 0) {
        None => None,
        Some(a) => {
            let e = line_end(s, a);
            let f4 = nth_field(s, a, e, 4);
            let f5 = nth_field(s, a, e, 5);
            if f4.0 < f4.1 {
                Some(
                    CpuTimes {
                        user: u64_or_zero(s, nth_field(s, a, e, 1)),
                        nice: u64_or_zero(s, nth_field(s, a, e, 2)),
                        system: u64_or_zero(s, nth_field(s, a, e, 3)),
                        idle: u64_or_zero(s, f4),
                        iowait: if f5.0 < f5.1 { Some(u64_or_zero(s, f5)) } else { None },
                    },
                )
            } else {
                None
            }
        },
    }
}

fn line_end_from(s: &[u8], i: usize) -> (r: usize)
    requires
        i <= s@.len(),
    ensures
        r == line_end(s@, i as int),
        i <= r <= s@.len(),
{
    let mut j: usize = i;
    while j < s.len() && s[j] != 10u8
        invariant
            i <= j <= s@.len(),
            line_end(s@, j as int) == line_end(s@, i as int),
        decreases s@.len() - j,
    {
        j = j + 1;
    }
    j
}

/// Reads `s[lo..hi]` as a `u64` with an optional `+`.
fn parse_u64(s: &[u8], lo: usize, hi: usize) -> (r: Option<u64>)
    requires
        lo <= hi <= s@.len(),
    ensures
        r == u64_of(s@, lo as int, hi as int),
{
    let start: usize = if lo < hi && s[lo] == 43u8 { lo + 1 } else { lo };
    if start >= hi {
        return None;
    }
    let mut j: usize = start;
    let mut acc: u64 = 0;
    let mut fits = true;
    while j < hi
        invariant
            start <= j <= hi,
            hi <= s@.len(),
            lo <= hi,
            start as int == (if lo < hi && s@[lo as int] == 43u8 { lo + 1 } else { lo as int }),
            forall|k: int| start <= k < j ==> crate::text::is_digit(#[trigger] s@[k]),
            digits_value(s@, start as int, j as int) >= 0,
            fits ==> acc as int == digits_value(s@, start as int, j as int),
            !fits ==> digits_value(s@, start as int, j as int) > u64::MAX,
            crate::text::digits_end(s@, j as int, hi as int) == crate::text::digits_end(
                s@,
                start as int,
                hi as int,
            ),
        decreases hi - j,
    {
        let b = s[j];
        if !(48u8 <= b && b <= 57u8) {
            assert(crate::text::digits_end(s@, j as int, hi as int) == j as int);
            return None;
        }
        let d: u64 = (b - 48u8) as u64;
        let ghost prev = digits_value(s@, start as int, j as int);
        assert(digits_value(s@, start as int, j + 1) == prev * 10 + d);
        if fits {
            if acc > (u64::MAX - d) / 10 {
                fits = false;
                assert(prev * 10 + d > u64::MAX) by (nonlinear_arith)
                    requires
                        prev == acc,
                        acc > (u64::MAX - d) / 10,
                        0 <= d <= 9,
                ;
            } else {
                assert(acc * 10 + d <= u64::MAX) by (nonlinear_arith)
                    requires
                        acc <= (u64::MAX - d) / 10,
                        0 <= d <= 9,
                ;
                acc = acc * 10 + d;
            }
        } else {
            assert(prev * 10 + d > u64::MAX) by (nonlinear_arith)
                requires
                    prev > u64::MAX,
                    0 <= d,
            ;
        }
        j = j + 1;
    }
    if fits {
        Some(acc)
    } else {
        None
    }
}

fn field_value(s: &[u8], f: (usize, usize)) -> (r: u64)
    requires
        f.0 <= f.1 <= s@.len(),
    ensures
        r == u64_or_zero(s@, (f.0 as int, f.1 as int)),
{
    match parse_u64(s, f.0, f.1) {
        Some(v) => v,
        None => 0,
    }
}

/// The aggregate CPU times of the kernel's CPU-time table: the first line
/// that begins with `cpu `, split on whitespace; a field that is not an
/// unsigned decimal counts as 0. `None` when there is no such line or it
/// has fewer than five fields.
pub fn parse_proc_stat(text: &[u8]) -> (r: Option<CpuTimes>)
    ensures
        r == cpu_times_of(text@),
{
    let n = text.len();
    let mut i: usize = 0;
    while i < n
        invariant
            i <= n,
            n == text@.len(),
            cpu_line_from(text@, i as int) == cpu_line_from(text@, 0),
        decreases n - i,
    {
        if (i == 0 || text[i - 1] == 10u8) && n - i >= 4 && text[i] == 99u8 && text[i + 1] == 112u8
            && text[i + 2] == 117u8 && text[i + 3] == 32u8 {
            let e = line_end_from(text, i);
            let f4 = field_bounds(text, i, e, 4);
            if f4.0 >= f4.1 {
                return None;
            }
            let f5 = field_bounds(text, i, e, 5);
            let iowait = if f5.0 < f5.1 { Some(field_value(text, f5)) } else { None };
            return Some(
                CpuTimes {
                    user: field_value(text, field_bounds(text, i, e, 1)),
                    nice: field_value(text, field_bounds(text, i, e, 2)),
                    system: field_value(text, field_bounds(text, i, e, 3)),
                    idle: field_value(text, f4),
                    iowait,
                },
            );
        }
        i = i + 1;
    }
    None
}

/// Index of the first `:` in `s[j..hi]`, or `hi` when there is none.
pub open spec fn colon_from(s: Seq<u8>, j: int, hi: int) -> int
    decreases hi - j,
{
    if j >= hi {
        hi
    } else if s[j] == 58u8 {
        j
    } else {
        colon_from(s, j + 1, hi)
    }
}

/// Index of the first ` kB` that lies in `s[j..hi]`, or `hi` when there is none.
pub open spec fn kb_from(s: Seq<u8>, j: int, hi: int) -> int
    decreases hi - j,
{
    if j + 3 > hi {
        hi
    } else if s[j] == 32u8 && s[j + 1] == 107u8 && s[j + 2] == 66u8 {
        j
    } else {
        kb_from(s, j + 1, hi)
    }
}

/// The entry of the line `s[a..e]`, of the shape `Key: value kB`: the key
/// with surrounding whitespace removed, and the value in bytes. `None` when
/// the line has no colon, no ` kB`, a value that is not an unsigned decimal,
/// or one whose byte count does not fit a `u64`.
pub open spec fn entry_of_line(s: Seq<u8>, a: int, e: int) -> Option<(Seq<u8>, u64)> {
    let c = colon_from(s, a, e);
    let k0 = skip_spaces(s, a, c);
    let k1 = trim_end(s, k0, c);
    let v0 = skip_spaces(s, c + 1, e);
    let v1 = trim_end(s, v0, e);
    let kb = kb_from(s, v0, v1);
    let n1 = trim_end(s, v0, kb);
    if c >= e || kb >= v1 {
        None
    } else {
        match u64_of(s, v0, n1) {
            Some(v) => if v <= u64::MAX / 1024 {
                Some((s.subrange(k0, k1), (v * 1024) as u64))
            } else {
                None
            },
            None => None,
        }
    }
}

/// The entries of the lines that start at or after `i`, in order.
pub open spec fn meminfo_from(s: Seq<u8>, i: int) -> Seq<(Seq<u8>, u64)>
    decreases s.len() - i,
{
    if i < 0 || i >= s.len() {
        Seq::empty()
    } else {
        let rest = meminfo_from(s, i + 1);
        if i == 0 || s[i - 1] == 10u8 {
            match entry_of_line(s, i, line_end(s, i)) {
                Some(x) => seq![x] + rest,
                None => rest,
            }
        } else {
            rest
        }
    }
}

/// What a table of entries says when read as a map: each key's value is
/// the one of its last entry.
pub open spec fn entries_map(entries: Seq<(Seq<u8>, u64)>) -> Map<Seq<u8>, u64>
    decreases entries.len(),
{
    if entries.len() == 0 {
        Map::empty()
    } else {
        entries_map(entries.drop_last()).insert(entries.last().0, entries.last().1)
    }
}

/// The kernel's memory-information table as a map from key to bytes.
pub open spec fn meminfo_map(s: Seq<u8>) -> Map<Seq<u8>, u64> {
    entries_map(meminfo_from(s, 0))
}

/// Spec view of parsed entries.
pub open spec fn entries_view(v: Seq<(Vec<u8>, u64)>) -> Seq<(Seq<u8>, u64)> {
    v.map_values(|p: (Vec<u8>, u64)| (p.0@, p.1))
}

fn colon_in(s: &[u8], j: usize, hi: usize) -> (r: usize)
    requires
        j <= hi <= s@.len(),
    ensures
        r == colon_from(s@, j as int, hi as int),
        j <= r <= hi,
{
    let mut k: usize = j;
    while k < hi && s[k] != 58u8
        invariant
            j <= k <= hi,
            hi <= s@.len(),
            colon_from(s@, k as int, hi as int) == colon_from(s@, j as int, hi as int),
        decreases hi - k,
    {
        k = k + 1;
    }
    k
}

fn kb_in(s: &[u8], j: usize, hi: usize) -> (r: usize)
    requires
        j <= hi <= s@.len(),
    ensures
        r == kb_from(s@, j as int, hi as int),
        j <= r <= hi,
{
    let mut k: usize = j;
    while k < hi && hi - k >= 3
        invariant
            j <= k <= hi,
            hi <= s@.len(),
            kb_from(s@, k as int, hi as int) == kb_from(s@, j as int, hi as int),
        decreases hi - k,
    {
        if s[k] == 32u8 && s[k + 1] == 107u8 && s[k + 2] == 66u8 {
            return k;
        }
        k = k + 1;
    }
    hi
}

fn line_entry(s: &[u8], a: usize, e: usize) -> (r: Option<(Vec<u8>, u64)>)
    requires
        a <= e <= s@.len(),
    ensures
        match entry_of_line(s@, a as int, e as int) {
            Some(x) => r is Some && r.unwrap().0@ == x.0 && r.unwrap().1 == x.1,
            None => r is None,
        },
{
    let c = colon_in(s, a, e);
    if c >= e {
        return None;
    }
    let k0 = skip_spaces_from(s, a, c);
    let k1 = trim_end_from(s, k0, c);
    let v0 = skip_spaces_from(s, c + 1, e);
    let v1 = trim_end_from(s, v0, e);
    let kb = kb_in(s, v0, v1);
    if kb >= v1 {
        return None;
    }
    let n1 = trim_end_from(s, v0, kb);
    match parse_u64(s, v0, n1) {
        Some(v) => if v <= u64::MAX / 1024 {
            Some((copy_range(s, k0, k1), v * 1024))
        } else {
            None
        },
        None => None,
    }
}

/// The entries of the kernel's memory-information table, one per line of
/// the shape `Key: value kB`, in the order of the lines, with each value
/// converted from kibibytes to bytes. Lines of another shape are skipped.
/// Read as a map (`meminfo_map`), a later entry of a key replaces an earlier one.
pub fn parse_meminfo(text: &[u8]) -> (r: Vec<(Vec<u8>, u64)>)
    ensures
        entries_view(r@) == meminfo_from(text@, 0),
        entries_map(entries_view(r@)) == meminfo_map(text@),
{
    let n = text.len();
    let mut out: Vec<(Vec<u8>, u64)> = Vec::new();
    let mut i: usize = 0;
    while i < n
        invariant
            i <= n,
            n == text@.len(),
            entries_view(out@) + meminfo_from(text@, i as int) == meminfo_from(text@, 0),
        decreases n - i,
    {
        let ghost before = entries_view(out@);
        if i == 0 || text[i - 1] == 10u8 {
            let e = line_end_from(text, i);
            match line_entry(text, i, e) {
                Some(x) => {
                    let ghost xv = (x.0@, x.1);
                    out.push(x);
                    assert(entries_view(out@) =~= before.push(xv));
                    assert(before.push(xv) + meminfo_from(text@, i + 1) =~= before + (seq![xv]
                        + meminfo_from(text@, i + 1)));
                },
                None => {},
            }
        }
        i = i + 1;
    }
    assert(meminfo_from(text@, n as int) =~= Seq::empty());
    assert(entries_view(out@) + Seq::empty() =~= entries_view(out@));
    out
}

} // verus!
