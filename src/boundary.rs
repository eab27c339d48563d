//! Locating UTF-8 character boundaries by byte offset.
use vstd::prelude::*;
use vstd::utf8::*;

verus! {

broadcast use encode_utf8_valid_utf8;

/// `i` is a byte offset at which a character starts, or the end of `b`.
pub open spec fn is_boundary(b: Seq<u8>, i: int) -> bool {
    i == 0 || i == b.len() || (0 < i < b.len() && !is_continuation_byte(b[i]))
}

/// The largest boundary of `b` that is at most `i` (for `0 <= i <= b.len()`).
pub open spec fn clamp_down(b: Seq<u8>, i: int) -> int
    decreases i,
{
    if i <= 0 {
        0
    } else if is_boundary(b, i) {
        i
    } else {
        clamp_down(b, i - 1)
    }
}

/// The largest boundary strictly below `i`, or 0 when `i` is 0.
pub open spec fn prev_boundary(b: Seq<u8>, i: int) -> int {
    if i <= 0 {
        0
    } else {
        clamp_down(b, i - 1)
    }
}

/// The smallest boundary strictly above `i`, or `i` itself once at or past the end.
pub open spec fn next_boundary(b: Seq<u8>, i: int) -> int
    decreases b.len() - i,
{
    if i >= b.len() {
        i
    } else if is_boundary(b, i + 1) {
        i + 1
    } else {
        next_boundary(b, i + 1)
    }
}

/// Where an arbitrary offset lands: first limited to the length, then moved down to a boundary.
pub open spec fn clamp_offset(b: Seq<u8>, pos: int) -> int {
    clamp_down(b, if pos < b.len() { pos } else { b.len() as int })
}

/// On a valid encoding, vstd's recursive boundary test agrees with the byte-local one.
pub proof fn lemma_boundary_agrees(b: Seq<u8>, i: int)
    requires
        valid_utf8(b),
    ensures
        is_char_boundary(b, i) <==> (0 <= i <= b.len() && is_boundary(b, i)),
{
    is_char_boundary_start_end_of_seq(b);
    if 0 <= i < b.len() {
        is_char_boundary_iff_not_is_continuation_byte(b, i);
    } else if i != b.len() && i != 0 {
        reveal_with_fuel(is_char_boundary, 1);
    }
}

pub proof fn lemma_clamp_down_facts(b: Seq<u8>, i: int)
    requires
        0 <= i <= b.len(),
    ensures
        0 <= clamp_down(b, i) <= i,
        is_boundary(b, clamp_down(b, i)),
        forall|j: int| clamp_down(b, i) < j <= i ==> !is_boundary(b, j),
    decreases i,
{
    if i > 0 && !is_boundary(b, i) {
        lemma_clamp_down_facts(b, i - 1);
    }
}

pub proof fn lemma_clamp_down_monotone(b: Seq<u8>, i: int, j: int)
    requires
        i <= j,
    ensures
        clamp_down(b, i) <= clamp_down(b, j),
    decreases j - i,
{
    lemma_clamp_down_nonneg(b, j);
    if i < j {
        lemma_clamp_down_monotone(b, i, j - 1);
        if i > 0 {
            lemma_clamp_down_facts_upper(b, i);
        }
    }
}

pub proof fn lemma_clamp_down_nonneg(b: Seq<u8>, i: int)
    ensures
        0 <= clamp_down(b, i),
    decreases i,
{
    if i > 0 && !is_boundary(b, i) {
        lemma_clamp_down_nonneg(b, i - 1);
    }
}

pub proof fn lemma_clamp_down_facts_upper(b: Seq<u8>, i: int)
    ensures
        clamp_down(b, i) <= (if i < 0 { 0 } else { i }),
    decreases i,
{
    if i > 0 && !is_boundary(b, i) {
        lemma_clamp_down_facts_upper(b, i - 1);
    }
}

pub proof fn lemma_next_boundary_facts(b: Seq<u8>, i: int)
    requires
        0 <= i < b.len(),
    ensures
        i < next_boundary(b, i) <= b.len(),
        is_boundary(b, next_boundary(b, i)),
        forall|j: int| i < j < next_boundary(b, i) ==> !is_boundary(b, j),
    decreases b.len() - i,
{
    if !is_boundary(b, i + 1) {
        lemma_next_boundary_facts(b, i + 1);
    }
}

/// Clamping an offset to a boundary twice gives what clamping it once gives.
pub proof fn lemma_clamp_idempotent(b: Seq<u8>, pos: int)
    ensures
        clamp_offset(b, clamp_offset(b, pos)) == clamp_offset(b, pos),
{
    let m = if pos < b.len() { pos } else { b.len() as int };
    if m >= 0 {
        lemma_clamp_down_facts(b, m);
    }
}

/// The bytes of `text` as a sequence.
pub open spec fn str_bytes(text: &str) -> Seq<u8> {
    encode_utf8(text@)
}

/// Returns the largest character boundary of `text` below `cursor` (0 when `cursor` is 0).
pub fn previous_char_boundary(text: &str, cursor: usize) -> (r: usize)
    requires
        cursor <= str_bytes(text).len(),
    ensures
        r == prev_boundary(str_bytes(text), cursor as int),
        cursor > 0 ==> r < cursor,
        is_boundary(str_bytes(text), r as int),
{
    let ghost b = str_bytes(text);
    let mut offset: usize = cursor;
    while offset > 0
        invariant_except_break
            b == str_bytes(text),
            offset <= cursor <= b.len(),
            offset < cursor ==> !is_boundary(b, offset as int),
            forall|j: int| offset < j < cursor ==> !is_boundary(b, j),
        ensures
            b == str_bytes(text),
            offset <= cursor,
            cursor > 0 ==> offset < cursor,
            is_boundary(b, offset as int),
            forall|j: int| offset < j < cursor ==> !is_boundary(b, j),
        decreases offset,
    {
        offset = offset - 1;
        let hit = text.is_char_boundary(offset);
        proof {
            lemma_boundary_agrees(b, offset as int);
        }
        if hit {
            break;
        }
    }
    proof {
        if cursor > 0 {
            lemma_clamp_down_facts(b, cursor - 1);
        }
    }
    offset
}

/// Returns the smallest character boundary of `text` above `cursor`, or `cursor` itself
/// when it is at or past the end.
pub fn next_char_boundary(text: &str, cursor: usize) -> (r: usize)
    ensures
        r == next_boundary(str_bytes(text), cursor as int),
        cursor < str_bytes(text).len() ==> cursor < r <= str_bytes(text).len() && is_boundary(
            str_bytes(text),
            r as int,
        ),
        cursor >= str_bytes(text).len() ==> r == cursor,
{
    let ghost b = str_bytes(text);
    let len = text.as_bytes().len();
    let mut offset: usize = cursor;
    while offset < len
        invariant_except_break
            b == str_bytes(text),
            len == b.len(),
            cursor <= offset,
            cursor >= b.len() ==> offset == cursor,
            cursor < b.len() ==> offset <= b.len(),
            forall|j: int| cursor < j <= offset ==> !is_boundary(b, j),
        ensures
            b == str_bytes(text),
            cursor >= b.len() ==> offset == cursor,
            cursor < b.len() ==> cursor < offset <= b.len() && is_boundary(b, offset as int),
            forall|j: int| cursor < j < offset ==> !is_boundary(b, j),
        decreases b.len() - offset,
    {
        offset = offset + 1;
        let hit = text.is_char_boundary(offset);
        proof {
            lemma_boundary_agrees(b, offset as int);
        }
        if hit {
            break;
        }
    }
    proof {
        if cursor < b.len() {
            lemma_next_boundary_facts(b, cursor as int);
        }
    }
    offset
}

/// Limits `position` to the length of `text`, then moves it down to the nearest boundary.
pub fn ensure_char_boundary(text: &str, position: usize) -> (r: usize)
    ensures
        r == clamp_offset(str_bytes(text), position as int),
        r <= position,
        r <= str_bytes(text).len(),
        is_boundary(str_bytes(text), r as int),
{
    let ghost b = str_bytes(text);
    let len = text.as_bytes().len();
    let mut pos: usize = if position < len {
        position
    } else {
        len
    };
    let ghost m = pos as int;
    while pos > 0 && !text.is_char_boundary(pos)
        invariant
            b == str_bytes(text),
            pos <= m <= b.len(),
            m == (if position < b.len() { position as int } else { b.len() as int }),
            clamp_down(b, m) == clamp_down(b, pos as int),
        decreases pos,
    {
        proof {
            lemma_boundary_agrees(b, pos as int);
        }
        pos = pos - 1;
    }
    proof {
        lemma_boundary_agrees(b, pos as int);
        lemma_clamp_down_facts(b, pos as int);
    }
    pos
}

} // verus!
