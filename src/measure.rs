//! The text side of caret measurement. A shaper may collapse trailing whitespace, so the
//! caret's x position is measured on the text before the caret followed by a fixed marker
//! glyph, less the width of the marker alone.
use vstd::prelude::*;
use vstd::string::*;

use crate::boundary::{clamp_offset, ensure_char_boundary, str_bytes};
use crate::text_input::{lemma_encode_concat, utf8_of};

verus! {

broadcast use vstd::utf8::encode_utf8_valid_utf8;

/// The glyph appended after the measured text and measured on its own.
pub const CARET_MARKER: &'static str = "|";

/// The characters of the marker glyph.
pub open spec fn marker_chars() -> Seq<char> {
    seq!['|']
}

/// The marker glyph.
pub fn caret_marker() -> (r: &'static str)
    ensures
        r@ == marker_chars(),
{
    proof {
        reveal_strlit("|");
    }
    CARET_MARKER
}

/// The text to measure for a caret at byte `offset` of `text`: `None` for the start of the
/// text, whose x is 0; otherwise the bytes before the caret followed by the marker. The
/// offset is first limited to the text and moved down to a character boundary.
pub fn caret_marker_text(text: &str, offset: usize) -> (r: Option<String>)
    ensures
        ({
            let p = clamp_offset(str_bytes(text), offset as int);
            &&& (p == 0) == (r is None)
            &&& r matches Some(m) ==> utf8_of(m@) == str_bytes(text).subrange(0, p) + utf8_of(
                marker_chars(),
            )
        }),
{
    let p = ensure_char_boundary(text, offset);
    if p == 0 {
        return None;
    }
    proof {
        crate::boundary::lemma_boundary_agrees(str_bytes(text), p as int);
    }
    let (before, _after) = text.split_at(p);
    let marker = caret_marker();
    let mut out = before.to_owned();
    out.append(marker);
    proof {
        lemma_encode_concat(before@, marker@);
    }
    Some(out)
}

/// For two caret offsets in order, the text measured for the first is a prefix of the text
/// measured for the second once the marker is taken off.
pub proof fn lemma_marker_texts_nested(text: Seq<char>, a: int, b: int)
    requires
        a <= b,
    ensures
        ({
            let bytes = utf8_of(text);
            let pa = clamp_offset(bytes, a);
            let pb = clamp_offset(bytes, b);
            &&& pa <= pb
            &&& bytes.subrange(0, pa) == bytes.subrange(0, pb).subrange(0, pa)
        }),
{
    let bytes = utf8_of(text);
    let ma = if a < bytes.len() { a } else { bytes.len() as int };
    let mb = if b < bytes.len() { b } else { bytes.len() as int };
    if ma >= 0 {
        crate::boundary::lemma_clamp_down_facts(bytes, ma);
    }
    if mb >= 0 {
        crate::boundary::lemma_clamp_down_facts(bytes, mb);
    }
    crate::boundary::lemma_clamp_down_monotone(bytes, ma, mb);
    let pa = clamp_offset(bytes, a);
    let pb = clamp_offset(bytes, b);
    assert(bytes.subrange(0, pa) =~= bytes.subrange(0, pb).subrange(0, pa));
}

} // verus!
