//! Parsing of the kernel's small telemetry texts (thermal zone, load average,
//! uptime), done on UTF-8 bytes.
use vstd::prelude::*;

verus! {

/// Cap used while accumulating the digits of a temperature reading.
pub const READING_CAP: u64 = 4_294_967_296;

/// One-byte whitespace: tab, line feed, vertical tab, form feed, carriage
/// return and space.
pub open spec fn is_space(b: u8) -> bool {
    b == 32u8 || (9u8 <= b && b <= 13u8)
}

/// Three-byte UTF-8 encodings of whitespace: U+1680, U+2000 to U+200A,
/// U+2028, U+2029, U+202F, U+205F and U+3000.
pub open spec fn is_space3(a: u8, b: u8, c: u8) -> bool {
    (a == 0xE1u8 && b == 0x9Au8 && c == 0x80u8)
    || (a == 0xE2u8 && b == 0x80u8 && ((0x80u8 <= c && c <= 0x8Au8) || c == 0xA8u8 || c == 0xA9u8 || c == 0xAFu8))
    || (a == 0xE2u8 && b == 0x81u8 && c == 0x9Fu8)
    || (a == 0xE3u8 && b == 0x80u8 && c == 0x80u8)
}

/// Two-byte UTF-8 encodings of whitespace: U+0085 and U+00A0.
pub open spec fn is_space2(a: u8, b: u8) -> bool {
    a == 0xC2u8 && (b == 0x85u8 || b == 0xA0u8)
}

/// Length in bytes of the whitespace character (the Unicode White_Space
/// set) that starts at `i` and ends by `hi`; 0 when there is none.
pub open spec fn space_len(s: Seq<u8>, i: int, hi: int) -> int {
    if i < 0 || i >= hi || hi > s.len() {
        0
    } else if is_space(s[i]) {
        1
    } else if i + 2 <= hi && is_space2(s[i], s[i + 1]) {
        2
    } else if i + 3 <= hi && is_space3(s[i], s[i + 1], s[i + 2]) {
        3
    } else {
        0
    }
}

/// Length in bytes of the whitespace character that ends at `j` and starts
/// at or after `lo`; 0 when there is none.
pub open spec fn space_len_before(s: Seq<u8>, lo: int, j: int) -> int {
    if j <= lo || lo < 0 || j > s.len() {
        0
    } else if is_space(s[j - 1]) {
        1
    } else if j - 2 >= lo && is_space2(s[j - 2], s[j - 1]) {
        2
    } else if j - 3 >= lo && is_space3(s[j - 3], s[j - 2], s[j - 1]) {
        3
    } else {
        0
    }
}

pub open spec fn is_digit(b: u8) -> bool {
    48u8 <= b && b <= 57u8
}

/// First index from `i` on (below `hi`) where no whitespace starts.
pub open spec fn skip_spaces(s: Seq<u8>, i: int, hi: int) -> int
    decreases hi - i,
{
    if i < 0 || i >= hi || space_len(s, i, hi) <= 0 {
        i
    } else {
        skip_spaces(s, i + space_len(s, i, hi), hi)
    }
}

/// First index from `i` on (below `hi`) where whitespace starts, or `hi`.
pub open spec fn field_end(s: Seq<u8>, i: int, hi: int) -> int
    decreases hi - i,
{
    if i < 0 || i >= hi || i >= s.len() {
        i
    } else if space_len(s, i, hi) == 0 {
        field_end(s, i + 1, hi)
    } else {
        i
    }
}

/// End of `s[lo..j]` once trailing whitespace is removed.
pub open spec fn trim_end(s: Seq<u8>, lo: int, j: int) -> int
    decreases j - lo,
{
    if j <= lo || space_len_before(s, lo, j) <= 0 {
        j
    } else {
        trim_end(s, lo, j - space_len_before(s, lo, j))
    }
}

/// Bounds of the `k`-th whitespace-separated field of `s[i..hi]`; empty
/// when there are not that many fields.
pub open spec fn nth_field(s: Seq<u8>, i: int, hi: int, k: nat) -> (int, int)
    decreases k,
{
    let a = skip_spaces(s, i, hi);
    let b = field_end(s, a, hi);
    if k == 0 {
        (a, b)
    } else {
        nth_field(s, b, hi, (k - 1) as nat)
    }
}

/// First index from `i` on (below `hi`) that holds no decimal digit.
pub open spec fn digits_end(s: Seq<u8>, i: int, hi: int) -> int
    decreases hi - i,
{
    if i < 0 || i >= hi || i >= s.len() {
        i
    } else if is_digit(s[i]) {
        digits_end(s, i + 1, hi)
    } else {
        i
    }
}

/// The number that the decimal digits `s[lo..hi]` write.
pub open spec fn digits_value(s: Seq<u8>, lo: int, hi: int) -> int
    decreases hi - lo,
{
    if hi <= lo {
        0
    } else {
        digits_value(s, lo, hi - 1) * 10 + (s[hi - 1] - 48)
    }
}

/// `s[lo..hi]` is a non-empty run of decimal digits.
pub open spec fn all_digits(s: Seq<u8>, lo: int, hi: int) -> bool {
    lo < hi && digits_end(s, lo, hi) == hi
}

/// A decimal integer with an optional sign in `s[lo..hi]`.
pub open spec fn int_of(s: Seq<u8>, lo: int, hi: int) -> Option<int> {
    if lo < hi && (s[lo] == 45u8 || s[lo] == 43u8) {
        if all_digits(s, lo + 1, hi) {
            Some(if s[lo] == 45u8 { -digits_value(s, lo + 1, hi) } else { digits_value(s, lo + 1, hi) })
        } else {
            None
        }
    } else if all_digits(s, lo, hi) {
        Some(digits_value(s, lo, hi))
    } else {
        None
    }
}

/// A thermal-zone reading in millidegrees: the whole text, whitespace
/// around it removed, as an `i32`; 0 when it is no such number.
pub open spec fn temperature_of(s: Seq<u8>) -> int {
    let lo = skip_spaces(s, 0, s.len() as int);
    let hi = trim_end(s, lo, s.len() as int);
    match int_of(s, lo, hi) {
        Some(v) => if i32::MIN <= v && v <= i32::MAX { v } else { 0 },
        None => 0,
    }
}

/// The text of the `k`-th whitespace-separated field of `s`, when there is one.
pub open spec fn field_of(s: Seq<u8>, k: nat) -> Option<Seq<u8>> {
    let f = nth_field(s, 0, s.len() as int, k);
    if f.0 < f.1 {
        Some(s.subrange(f.0, f.1))
    } else {
        None
    }
}

/// Load averages over 1, 5 and 15 minutes, in hundredths of a runnable task.
#[derive(Clone, Copy, Debug, PartialEq, Eq, Structural)]
pub struct LoadAverage {
    pub one: u64,
    pub five: u64,
    pub fifteen: u64,
}

fn digit_byte(b: u8) -> (r: bool)
    ensures
        r == is_digit(b),
{
    48u8 <= b && b <= 57u8
}

fn one_byte_space(b: u8) -> (r: bool)
    ensures
        r == is_space(b),
{
    b == 32u8 || (9u8 <= b && b <= 13u8)
}

fn two_byte_space(a: u8, b: u8) -> (r: bool)
    ensures
        r == is_space2(a, b),
{
    a == 0xC2u8 && (b == 0x85u8 || b == 0xA0u8)
}

fn three_byte_space(a: u8, b: u8, c: u8) -> (r: bool)
    ensures
        r == is_space3(a, b, c),
{
    (a == 0xE1u8 && b == 0x9Au8 && c == 0x80u8)
    || (a == 0xE2u8 && b == 0x80u8 && ((0x80u8 <= c && c <= 0x8Au8) || c == 0xA8u8 || c == 0xA9u8 || c == 0xAFu8))
    || (a == 0xE2u8 && b == 0x81u8 && c == 0x9Fu8)
    || (a == 0xE3u8 && b == 0x80u8 && c == 0x80u8)
}

fn space_len_at(s: &[u8], i: usize, hi: usize) -> (r: usize)
    requires
        i <= hi <= s@.len(),
    ensures
        r as int == space_len(s@, i as int, hi as int),
        i + r <= hi,
{
    if i >= hi {
        0
    } else if one_byte_space(s[i]) {
        1
    } else if hi - i >= 2 && two_byte_space(s[i], s[i + 1]) {
        2
    } else if hi - i >= 3 && three_byte_space(s[i], s[i + 1], s[i + 2]) {
        3
    } else {
        0
    }
}

fn space_len_before_at(s: &[u8], lo: usize, j: usize) -> (r: usize)
    requires
        lo <= j <= s@.len(),
    ensures
        r as int == space_len_before(s@, lo as int, j as int),
        lo + r <= j,
{
    if j <= lo {
        0
    } else if one_byte_space(s[j - 1]) {
        1
    } else if j - lo >= 2 && two_byte_space(s[j - 2], s[j - 1]) {
        2
    } else if j - lo >= 3 && three_byte_space(s[j - 3], s[j - 2], s[j - 1]) {
        3
    } else {
        0
    }
}

pub(crate) fn skip_spaces_from(s: &[u8], i: usize, hi: usize) -> (r: usize)
    requires
        i <= hi <= s@.len(),
    ensures
        r == skip_spaces(s@, i as int, hi as int),
        i <= r <= hi,
{
    let mut j: usize = i;
    let mut k: usize = space_len_at(s, j, hi);
    while k > 0
        invariant
            i <= j <= hi,
            hi <= s@.len(),
            j + k <= hi,
            k as int == space_len(s@, j as int, hi as int),
            skip_spaces(s@, j as int, hi as int) == skip_spaces(s@, i as int, hi as int),
        decreases hi - j,
    {
        j = j + k;
        k = space_len_at(s, j, hi);
    }
    j
}

pub(crate) fn field_end_from(s: &[u8], i: usize, hi: usize) -> (r: usize)
    requires
        i <= hi <= s@.len(),
    ensures
        r == field_end(s@, i as int, hi as int),
        i <= r <= hi,
{
    let mut j: usize = i;
    while j < hi && space_len_at(s, j, hi) == 0
        invariant
            i <= j <= hi,
            hi <= s@.len(),
            field_end(s@, j as int, hi as int) == field_end(s@, i as int, hi as int),
        decreases hi - j,
    {
        j = j + 1;
    }
    j
}

pub(crate) fn trim_end_from(s: &[u8], lo: usize, hi: usize) -> (r: usize)
    requires
        lo <= hi <= s@.len(),
    ensures
        r == trim_end(s@, lo as int, hi as int),
        lo <= r <= hi,
{
    let mut j: usize = hi;
    let mut k: usize = space_len_before_at(s, lo, j);
    while k > 0
        invariant
            lo <= j <= hi,
            hi <= s@.len(),
            lo + k <= j,
            k as int == space_len_before(s@, lo as int, j as int),
            trim_end(s@, lo as int, j as int) == trim_end(s@, lo as int, hi as int),
        decreases j - lo,
    {
        j = j - k;
        k = space_len_before_at(s, lo, j);
    }
    j
}

/// Bounds of the `k`-th field of `s[i..hi]`.
pub(crate) fn field_bounds(s: &[u8], i: usize, hi: usize, k: usize) -> (r: (usize, usize))
    requires
        i <= hi <= s@.len(),
    ensures
        (r.0 as int, r.1 as int) == nth_field(s@, i as int, hi as int, k as nat),
        i <= r.0 <= r.1 <= hi,
    decreases k,
{
    let a = skip_spaces_from(s, i, hi);
    let b = field_end_from(s, a, hi);
    if k == 0 {
        (a, b)
    } else {
        field_bounds(s, b, hi, k - 1)
    }
}

/// A copy of `s[lo..hi]`.
pub(crate) fn copy_range(s: &[u8], lo: usize, hi: usize) -> (r: Vec<u8>)
    requires
        lo <= hi <= s@.len(),
    ensures
        r@ == s@.subrange(lo as int, hi as int),
{
    let mut out: Vec<u8> = Vec::new();
    let mut k: usize = lo;
    while k < hi
        invariant
            lo <= k <= hi,
            hi <= s@.len(),
            out@ == s@.subrange(lo as int, k as int),
        decreases hi - k,
    {
        out.push(s[k]);
        k = k + 1;
        assert(out@ == s@.subrange(lo as int, k as int));
    }
    out
}

/// Scans the digits from `lo`; returns where they end and their value,
/// capped at `cap`.
fn scan_digits(s: &[u8], lo: usize, hi: usize, cap: u64) -> (r: (usize, u64))
    requires
        lo <= hi <= s@.len(),
        cap <= 1000000000000000000,
    ensures
        r.0 == digits_end(s@, lo as int, hi as int),
        lo <= r.0 <= hi,
        forall|k: int| lo <= k < r.0 ==> is_digit(#[trigger] s@[k]),
        r.1 as int == if digits_value(s@, lo as int, r.0 as int) < cap {
            digits_value(s@, lo as int, r.0 as int)
        } else {
            cap as int
        },
{
    let mut j: usize = lo;
    let mut acc: u64 = 0;
    while j < hi && digit_byte(s[j])
        invariant
            lo <= j <= hi,
            hi <= s@.len(),
            cap <= 1000000000000000000,
            digits_end(s@, j as int, hi as int) == digits_end(s@, lo as int, hi as int),
            forall|k: int| lo <= k < j ==> is_digit(#[trigger] s@[k]),
            digits_value(s@, lo as int, j as int) >= 0,
            acc as int == if digits_value(s@, lo as int, j as int) < cap {
                digits_value(s@, lo as int, j as int)
            } else {
                cap as int
            },
        decreases hi - j,
    {
        let d: u64 = (s[j] - 48u8) as u64;
        assert(digits_value(s@, lo as int, j + 1) == digits_value(s@, lo as int, j as int) * 10 + d);
        if acc >= cap {
            acc = cap;
        } else {
            let next: u64 = acc * 10 + d;
            acc = if next < cap { next } else { cap };
        }
        j = j + 1;
    }
    (j, acc)
}

/// Reads a decimal integer with an optional sign as an `i32`.
fn parse_int(s: &[u8], lo: usize, hi: usize) -> (r: Option<i32>)
    requires
        lo <= hi <= s@.len(),
    ensures
        match int_of(s@, lo as int, hi as int) {
            Some(v) => if i32::MIN <= v && v <= i32::MAX {
                r == Some(v as i32)
            } else {
                r.is_none()
            },
            None => r.is_none(),
        },
{
    let mut start: usize = lo;
    let mut negative = false;
    if lo < hi && (s[lo] == 45u8 || s[lo] == 43u8) {
        negative = s[lo] == 45u8;
        start = lo + 1;
    }
    let (d, mag) = scan_digits(s, start, hi, READING_CAP);
    if d == start || d != hi {
        return None;
    }
    if negative {
        if mag > 2_147_483_648u64 {
            None
        } else {
            Some((0i64 - mag as i64) as i32)
        }
    } else if mag > 2_147_483_647u64 {
        None
    } else {
        Some(mag as i32)
    }
}

/// The temperature, in millidegrees Celsius, that a thermal-zone source
/// holds. A missing source or a text that is not an integer gives the
/// sentinel 0, never an error.
pub fn get_cpu_temperature(source: Option<&[u8]>) -> (r: i32)
    ensures
        match source {
            Some(text) => r as int == temperature_of(text@),
            None => r == 0,
        },
{
    match source {
        None => 0,
        Some(text) => {
            let lo = skip_spaces_from(text, 0, text.len());
            let hi = trim_end_from(text, lo, text.len());
            match parse_int(text, lo, hi) {
                Some(v) => v,
                None => 0,
            }
        },
    }
}

/// The text of the `k`-th whitespace-separated field, when there is one.
pub fn field_text(text: &[u8], k: usize) -> (r: Option<Vec<u8>>)
    ensures
        match field_of(text@, k as nat) {
            Some(f) => r is Some && r.unwrap()@ == f,
            None => r is None,
        },
{
    let (a, b) = field_bounds(text, 0, text.len(), k);
    if a < b {
        Some(copy_range(text, a, b))
    } else {
        None
    }
}

/// The first three fields of a kernel load-average source, whose texts
/// are the 1, 5 and 15-minute load averages; `None` (never zeros) when the
/// source is missing or has fewer than three fields.
pub fn load_average_fields(source: Option<&[u8]>) -> (r: Option<(Vec<u8>, Vec<u8>, Vec<u8>)>)
    ensures
        match source {
            Some(text) => match (field_of(text@, 0), field_of(text@, 1), field_of(text@, 2)) {
                (Some(x), Some(y), Some(z)) => r is Some && r.unwrap().0@ == x && r.unwrap().1@ == y
                    && r.unwrap().2@ == z,
                _ => r is None,
            },
            None => r is None,
        },
{
    let text = match source {
        None => {
            return None;
        },
        Some(t) => t,
    };
    match (field_text(text, 0), field_text(text, 1), field_text(text, 2)) {
        (Some(x), Some(y), Some(z)) => Some((x, y, z)),
        _ => None,
    }
}

/// The first field of a kernel uptime source: seconds since boot, as text.
/// `None` when the source is missing or empty.
pub fn uptime_field(source: Option<&[u8]>) -> (r: Option<Vec<u8>>)
    ensures
        match source {
            Some(text) => match field_of(text@, 0) {
                Some(f) => r is Some && r.unwrap()@ == f,
                None => r is None,
            },
            None => r is None,
        },
{
    match source {
        None => None,
        Some(text) => field_text(text, 0),
    }
}

/// Seconds since boot: the whole seconds read from the uptime source's
/// first field, or 0 when it could not be read.
pub fn get_system_uptime(whole_seconds: Option<u64>) -> (r: u64)
    ensures
        match whole_seconds {
            Some(v) => r == v,
            None => r == 0,
        },
{
    match whole_seconds {
        Some(v) => v,
        None => 0,
    }
}

} // verus!
