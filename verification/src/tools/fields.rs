use vstd::prelude::*;

use crate::capture::{CaptureData, CaptureView, MatchData};
use crate::text::{text_of_range, utf8_or_empty};

verus! {

/// The position of the last capture whose index is `idx`.
pub open spec fn last_pos(caps: Seq<CaptureView>, idx: u32) -> Option<int>
    decreases caps.len(),
{
    if caps.len() == 0 {
        None
    } else if caps.last().index == idx {
        Some(caps.len() - 1)
    } else {
        last_pos(caps.drop_last(), idx)
    }
}

/// The captures a match assigns to three slots, reading its captures in order
/// and giving each to the first slot whose index it carries: the position of
/// the last capture for `a`, the last for `b` unless `b` is `a`, and the last
/// for `c` unless `c` is absent or is `a` or `b`.
pub open spec fn slots(caps: Seq<CaptureView>, a: u32, b: u32, c: Option<u32>) -> (Option<int>, Option<int>, Option<int>) {
    (
        last_pos(caps, a),
        if b == a { None } else { last_pos(caps, b) },
        match c {
            Some(x) => if x == a || x == b { None } else { last_pos(caps, x) },
            None => None,
        },
    )
}

/// The text a capture covers in `source`: the UTF-8 decoding of its bytes, or
/// nothing when they are not valid UTF-8.
pub open spec fn capture_text(source: Seq<u8>, c: CaptureView) -> Seq<char> {
    utf8_or_empty(source.subrange(c.start_byte as int, c.end_byte as int))
}

/// The text of the capture at position `p`, or nothing without one.
pub open spec fn slot_text(caps: Seq<CaptureView>, source: Seq<u8>, p: Option<int>) -> Seq<char> {
    match p {
        Some(i) => capture_text(source, caps[i]),
        None => Seq::empty(),
    }
}

/// The capture's byte range lies within a source of `len` bytes.
pub open spec fn range_fits(c: CaptureView, len: nat) -> bool {
    c.start_byte <= c.end_byte <= len
}

/// Every capture with index `idx` in the match lies within the source.
pub open spec fn texts_fit(caps: Seq<CaptureView>, idx: u32, len: nat) -> bool {
    forall|j: int| 0 <= j < caps.len() && (#[trigger] caps[j]).index == idx ==> range_fits(caps[j], len)
}

/// Every capture with index `idx` has rows that a one-based count can hold.
pub open spec fn rows_fit(caps: Seq<CaptureView>, idx: u32) -> bool {
    forall|j: int| 0 <= j < caps.len() && (#[trigger] caps[j]).index == idx ==> {
        &&& caps[j].start_row < usize::MAX
        &&& caps[j].end_row < usize::MAX
    }
}

proof fn lemma_last_pos_in_bounds(caps: Seq<CaptureView>, idx: u32)
    ensures
        last_pos(caps, idx) matches Some(p) ==> 0 <= p < caps.len() && caps[p].index == idx,
    decreases caps.len(),
{
    if caps.len() > 0 && caps.last().index != idx {
        lemma_last_pos_in_bounds(caps.drop_last(), idx);
    }
}

/// Every slot that a match fills holds a position of one of its captures.
pub proof fn lemma_slots_in_bounds(caps: Seq<CaptureView>, a: u32, b: u32, c: Option<u32>)
    ensures
        slots(caps, a, b, c).0 matches Some(p) ==> 0 <= p < caps.len(),
        slots(caps, a, b, c).1 matches Some(p) ==> 0 <= p < caps.len(),
        slots(caps, a, b, c).2 matches Some(p) ==> 0 <= p < caps.len(),
{
    lemma_last_pos_in_bounds(caps, a);
    lemma_last_pos_in_bounds(caps, b);
    if let Some(x) = c {
        lemma_last_pos_in_bounds(caps, x);
    }
}

/// Reads a match's captures in order and sorts them into three slots, as
/// [`slots`] describes.
pub fn pick_slots(m: &MatchData, a: u32, b: u32, c: Option<u32>) -> (r: (Option<usize>, Option<usize>, Option<usize>))
    ensures
        ({
            let s = slots(m@, a, b, c);
            &&& (match r.0 { Some(p) => s.0 == Some(p as int), None => s.0 is None })
            &&& (match r.1 { Some(p) => s.1 == Some(p as int), None => s.1 is None })
            &&& (match r.2 { Some(p) => s.2 == Some(p as int), None => s.2 is None })
        }),
        r.0 matches Some(p) ==> p < m@.len() && m@[p as int].index == a,
        r.1 matches Some(p) ==> p < m@.len() && m@[p as int].index == b,
        r.2 matches Some(p) ==> p < m@.len() && c == Some(m@[p as int].index),
{
    let n = m.captures.len();
    let mut pa: Option<usize> = None;
    let mut pb: Option<usize> = None;
    let mut pc: Option<usize> = None;
    let mut i: usize = 0;
    while i < n
        invariant
            n == m.captures@.len(),
            n == m@.len(),
            i <= n,
            ({
                let s = slots(m@.take(i as int), a, b, c);
                &&& (match pa { Some(p) => s.0 == Some(p as int), None => s.0 is None })
                &&& (match pb { Some(p) => s.1 == Some(p as int), None => s.1 is None })
                &&& (match pc { Some(p) => s.2 == Some(p as int), None => s.2 is None })
            }),
            pa matches Some(p) ==> p < i && m@[p as int].index == a,
            pb matches Some(p) ==> p < i && m@[p as int].index == b,
            pc matches Some(p) ==> p < i && c == Some(m@[p as int].index),
        decreases n - i,
    {
        let ix = m.captures[i].index;
        proof {
            assert(m@.take(i + 1).drop_last() =~= m@.take(i as int));
            assert(m@.take(i + 1).last() == m@[i as int]);
        }
        if ix == a {
            pa = Some(i);
        } else if ix == b {
            pb = Some(i);
        } else {
            match c {
                Some(x) => {
                    if ix == x {
                        pc = Some(i);
                    }
                },
                None => {},
            }
        }
        i = i + 1;
    }
    proof {
        assert(m@.take(n as int) =~= m@);
    }
    (pa, pb, pc)
}

/// The text that the capture covers in `source`.
pub fn capture_text_of(source: &[u8], c: &CaptureData) -> (r: String)
    requires
        range_fits(c@, source@.len()),
    ensures
        r@ == capture_text(source@, c@),
{
    text_of_range(source, c.start_byte, c.end_byte)
}

/// Whether every capture with index `idx` lies within a source of `len`
/// bytes.
pub fn check_texts_fit(m: &MatchData, idx: u32, len: usize) -> (r: bool)
    ensures
        r == texts_fit(m@, idx, len as nat),
{
    let n = m.captures.len();
    let mut j: usize = 0;
    while j < n
        invariant
            n == m@.len(),
            j <= n,
            forall|k: int| 0 <= k < j && (#[trigger] m@[k]).index == idx ==> range_fits(m@[k], len as nat),
        decreases n - j,
    {
        let c = &m.captures[j];
        if c.index == idx && !(c.start_byte <= c.end_byte && c.end_byte <= len) {
            assert(m@[j as int].index == idx);
            return false;
        }
        j = j + 1;
    }
    true
}

/// Whether every capture with index `idx` has rows that a one-based count
/// can hold.
pub fn check_rows_fit(m: &MatchData, idx: u32) -> (r: bool)
    ensures
        r == rows_fit(m@, idx),
{
    let n = m.captures.len();
    let mut j: usize = 0;
    while j < n
        invariant
            n == m@.len(),
            j <= n,
            forall|k: int| 0 <= k < j && (#[trigger] m@[k]).index == idx ==> {
                &&& m@[k].start_row < usize::MAX
                &&& m@[k].end_row < usize::MAX
            },
        decreases n - j,
    {
        let c = &m.captures[j];
        if c.index == idx && !(c.start_row < usize::MAX && c.end_row < usize::MAX) {
            assert(m@[j as int].index == idx);
            return false;
        }
        j = j + 1;
    }
    true
}

} // verus!
