//! Framing of the append-only sample log: one serialised snapshot per line.
use vstd::prelude::*;

verus! {

pub const NEWLINE: u8 = 10;

/// `s` holds no line break.
pub open spec fn single_line(s: Seq<u8>) -> bool {
    forall|i: int| 0 <= i < s.len() ==> s[i] != NEWLINE
}

/// Number of line breaks in `s`.
pub open spec fn line_count(s: Seq<u8>) -> nat
    decreases s.len(),
{
    if s.len() == 0 {
        0
    } else {
        line_count(s.drop_last()) + if s.last() == NEWLINE { 1nat } else { 0nat }
    }
}

/// The log after appending the framed records of `payloads`, in order.
pub open spec fn log_of(payloads: Seq<Seq<u8>>) -> Seq<u8>
    decreases payloads.len(),
{
    if payloads.len() == 0 {
        Seq::empty()
    } else {
        log_of(payloads.drop_last()) + payloads.last().push(NEWLINE)
    }
}

/// The line appended to the log for one serialised snapshot; `None` when
/// the payload would not stay on one line, which fails the run.
pub fn frame_record(payload: &[u8]) -> (r: Option<Vec<u8>>)
    ensures
        single_line(payload@) ==> r.is_some() && r.unwrap()@ == payload@.push(NEWLINE),
        !single_line(payload@) ==> r.is_none(),
{
    let mut out: Vec<u8> = Vec::new();
    let mut i: usize = 0;
    while i < payload.len()
        invariant
            i <= payload@.len(),
            out@ == payload@.subrange(0, i as int),
            single_line(payload@.subrange(0, i as int)),
        decreases payload@.len() - i,
    {
        if payload[i] == NEWLINE {
            return None;
        }
        out.push(payload[i]);
        i = i + 1;
        assert(out@ == payload@.subrange(0, i as int));
    }
    assert(payload@.subrange(0, i as int) == payload@);
    out.push(NEWLINE);
    Some(out)
}

proof fn lemma_line_count_concat(a: Seq<u8>, b: Seq<u8>)
    ensures
        line_count(a + b) == line_count(a) + line_count(b),
    decreases b.len(),
{
    if b.len() > 0 {
        lemma_line_count_concat(a, b.drop_last());
        assert((a + b).drop_last() == a + b.drop_last());
    } else {
        assert(a + b == a);
    }
}

proof fn lemma_single_line_count(s: Seq<u8>)
    requires
        single_line(s),
    ensures
        line_count(s) == 0,
    decreases s.len(),
{
    if s.len() > 0 {
        lemma_single_line_count(s.drop_last());
    }
}

/// After `n` records have been appended without error, the log holds
/// exactly `n` lines, and the last one is the last record, so that the
/// records stand in the order they were appended.
pub proof fn lemma_log_has_one_line_per_record(payloads: Seq<Seq<u8>>)
    requires
        forall|k: int| 0 <= k < payloads.len() ==> single_line(#[trigger] payloads[k]),
    ensures
        line_count(log_of(payloads)) == payloads.len(),
        payloads.len() > 0 ==> log_of(payloads) == log_of(payloads.drop_last()) + payloads.last().push(
            NEWLINE,
        ),
    decreases payloads.len(),
{
    if payloads.len() > 0 {
        let rest = payloads.drop_last();
        assert forall|k: int| 0 <= k < rest.len() implies single_line(#[trigger] rest[k]) by {
            assert(rest[k] == payloads[k]);
        }
        lemma_log_has_one_line_per_record(rest);
        let last = payloads.last();
        assert(single_line(last)) by {
            assert(last == payloads[payloads.len() - 1]);
        }
        lemma_line_count_concat(log_of(rest), last.push(NEWLINE));
        lemma_single_line_count(last);
        assert(last.push(NEWLINE).drop_last() == last);
    }
}

proof fn lemma_log_prefix(payloads: Seq<Seq<u8>>, k: int)
    requires
        0 <= k <= payloads.len(),
    ensures
        log_of(payloads.take(k)).len() <= log_of(payloads).len(),
        log_of(payloads).subrange(0, log_of(payloads.take(k)).len() as int) == log_of(payloads.take(k)),
    decreases payloads.len(),
{
    if k == payloads.len() {
        assert(payloads.take(k) =~= payloads);
        assert(log_of(payloads).subrange(0, log_of(payloads).len() as int) =~= log_of(payloads));
    } else {
        let rest = payloads.drop_last();
        assert(rest.take(k) =~= payloads.take(k));
        lemma_log_prefix(rest, k);
        let p = log_of(payloads.take(k));
        assert(log_of(payloads).subrange(0, p.len() as int) =~= log_of(rest).subrange(0, p.len() as int));
    }
}

/// In a log of single-line records, the `k`-th record (counting from 0)
/// stands, with its line break, right after the first `k` lines: the
/// records are the log's lines, in the order they were appended.
pub proof fn lemma_log_lines_are_records_in_order(payloads: Seq<Seq<u8>>, k: int)
    requires
        forall|j: int| 0 <= j < payloads.len() ==> single_line(#[trigger] payloads[j]),
        0 <= k < payloads.len(),
    ensures
        line_count(log_of(payloads.take(k))) == k,
        log_of(payloads.take(k)).len() + payloads[k].len() + 1 <= log_of(payloads).len(),
        log_of(payloads).subrange(
            log_of(payloads.take(k)).len() as int,
            (log_of(payloads.take(k)).len() + payloads[k].len() + 1) as int,
        ) == payloads[k].push(NEWLINE),
{
    let before = payloads.take(k);
    let upto = payloads.take(k + 1);
    assert forall|j: int| 0 <= j < before.len() implies single_line(#[trigger] before[j]) by {
        assert(before[j] == payloads[j]);
    }
    lemma_log_has_one_line_per_record(before);
    assert(upto.drop_last() =~= before);
    assert(upto.last() == payloads[k]);
    lemma_log_prefix(payloads, k + 1);
    let a = log_of(before);
    let b = payloads[k].push(NEWLINE);
    assert(log_of(upto) == a + b);
    let full = log_of(payloads);
    assert(full.subrange(a.len() as int, (a.len() + b.len()) as int) =~= (a + b).subrange(a.len() as int, (a.len() + b.len()) as int));
    assert((a + b).subrange(a.len() as int, (a.len() + b.len()) as int) =~= b);
}

} // verus!
