//! One text-input widget's state: committed content, caret, selection, drag anchor
//! and IME overlay, with the editing operations that keep them consistent.
use core::ops::Range;
use vstd::prelude::*;
use vstd::string::*;
use vstd::utf8::*;

use crate::boundary::{
    clamp_offset, ensure_char_boundary, is_boundary, lemma_boundary_agrees, next_boundary,
    next_char_boundary, prev_boundary, previous_char_boundary, str_bytes,
};

verus! {

broadcast use encode_utf8_valid_utf8;

/// Text that an input method has proposed but not yet committed.
#[derive(Clone)]
pub struct ImeComposition {
    pub text: String,
    /// Caret position within `text`, in bytes.
    pub cursor_offset: usize,
}

impl Default for ImeComposition {
    fn default() -> (r: Self)
        ensures
            r.text@ == Seq::<char>::empty(),
            r.cursor_offset == 0,
    {
        ImeComposition { text: String::new(), cursor_offset: 0 }
    }
}

/// State for a single text-input widget. Offsets are byte offsets into `content`.
pub struct TextInputState {
    pub content: String,
    pub cursor: usize,
    /// Half-open selected byte range; never empty when present.
    pub selection: Option<Range<usize>>,
    /// The fixed end of an in-progress drag selection.
    pub selection_anchor: Option<usize>,
    pub ime_composition: Option<ImeComposition>,
}

/// The UTF-8 bytes of a character sequence.
pub open spec fn utf8_of(s: Seq<char>) -> Seq<u8> {
    encode_utf8(s)
}

/// `b` with the bytes `[start, end)` replaced by `ins`.
pub open spec fn spliced(b: Seq<u8>, start: int, end: int, ins: Seq<u8>) -> Seq<u8> {
    b.subrange(0, start) + ins + b.subrange(end, b.len() as int)
}

/// A drag anchor after the content changed under it: moved onto a boundary of `b`.
pub open spec fn reclamped(anchor: Option<usize>, b: Seq<u8>) -> Option<usize> {
    match anchor {
        Some(a) => Some(clamp_offset(b, a as int) as usize),
        None => None,
    }
}

/// The selection that spans `a` and `p`, or none when they coincide.
pub open spec fn span(a: int, p: int) -> Option<Range<usize>> {
    if a < p {
        Some(Range { start: a as usize, end: p as usize })
    } else if p < a {
        Some(Range { start: p as usize, end: a as usize })
    } else {
        None
    }
}

pub proof fn lemma_encode_concat(a: Seq<char>, c: Seq<char>)
    ensures
        encode_utf8(a + c) == encode_utf8(a) + encode_utf8(c),
    decreases a.len(),
{
    if a.len() == 0 {
        assert(a + c =~= c);
        assert(encode_utf8(a) + encode_utf8(c) =~= encode_utf8(c));
    } else {
        lemma_encode_concat(a.drop_first(), c);
        assert((a + c).drop_first() =~= a.drop_first() + c);
        assert((a + c)[0] == a[0]);
        assert(encode_utf8(a + c) =~= encode_utf8(a) + encode_utf8(c));
    }
}

/// A character takes one to four bytes.
pub proof fn lemma_char_width(ch: char)
    ensures
        1 <= utf8_of(seq![ch]).len() <= 4,
{
    assert(seq![ch].drop_first() =~= Seq::<char>::empty());
    assert(utf8_of(seq![ch]) == encode_scalar(ch as u32) + encode_utf8(Seq::<char>::empty()));
}

/// In valid UTF-8, a boundary inside the sequence holds a leading byte.
pub proof fn lemma_boundary_byte(b: Seq<u8>, i: int)
    requires
        valid_utf8(b),
        0 <= i < b.len(),
        is_boundary(b, i),
    ensures
        !is_continuation_byte(b[i]),
{
    lemma_boundary_agrees(b, i);
    is_char_boundary_iff_not_is_continuation_byte(b, i);
}

/// Both ends of an inserted run are boundaries of the spliced sequence.
pub proof fn lemma_splice_boundaries(b: Seq<u8>, s: int, e: int, ins: Seq<u8>)
    requires
        valid_utf8(b),
        valid_utf8(ins),
        0 <= s <= e <= b.len(),
        is_boundary(b, s),
        is_boundary(b, e),
    ensures
        is_boundary(spliced(b, s, e, ins), s),
        is_boundary(spliced(b, s, e, ins), s + ins.len()),
        spliced(b, s, e, ins).len() == b.len() - (e - s) + ins.len(),
{
    let nb = spliced(b, s, e, ins);
    assert(nb.len() == b.len() - (e - s) + ins.len());
    if e < b.len() {
        lemma_boundary_byte(b, e);
        assert(nb[s + ins.len()] == b[e]);
    }
    if ins.len() > 0 && s > 0 {
        lemma_boundary_agrees(ins, 0);
        is_char_boundary_iff_not_is_continuation_byte(ins, 0);
        assert(nb[s] == ins[0]);
    }
}

/// A new string whose bytes are those of `content` with `[start, end)` replaced by `ins`.
fn splice(content: &String, start: usize, end: usize, ins: &str) -> (r: String)
    requires
        start <= end <= utf8_of(content@).len(),
        is_boundary(utf8_of(content@), start as int),
        is_boundary(utf8_of(content@), end as int),
    ensures
        utf8_of(r@) == spliced(utf8_of(content@), start as int, end as int, str_bytes(ins)),
{
    let ghost b = utf8_of(content@);
    let s = content.as_str();
    proof {
        lemma_boundary_agrees(b, end as int);
    }
    let (left, tail) = s.split_at(end);
    proof {
        let lb = str_bytes(left);
        assert(lb =~= b.subrange(0, end as int));
        if 0 < start < end {
            assert(lb[start as int] == b[start as int]);
        }
        assert(is_boundary(lb, start as int));
        lemma_boundary_agrees(lb, start as int);
    }
    let (head, _rest) = left.split_at(start);
    let mut r = head.to_owned();
    r.append(ins);
    r.append(tail);
    proof {
        lemma_encode_concat(head@, ins@);
        lemma_encode_concat(head@ + ins@, tail@);
        assert(str_bytes(head) =~= b.subrange(0, start as int));
        assert(str_bytes(tail) =~= b.subrange(end as int, b.len() as int));
    }
    r
}

/// Relies on `char::to_string`: a string holding exactly that character.
#[verifier::external_body]
fn char_to_string(ch: char) -> (r: String)
    ensures
        r@ == seq![ch],
{
    ch.to_string()
}

impl Default for TextInputState {
    fn default() -> (r: Self)
        ensures
            r.wf(),
            r.is_fresh(),
    {
        TextInputState::new()
    }
}

impl TextInputState {
    /// The committed content as bytes.
    pub open spec fn bytes(&self) -> Seq<u8> {
        utf8_of(self.content@)
    }

    /// Offsets of the caret, selection and anchor are boundaries; a selection is non-empty.
    /// Every operation that changes a state keeps this.
    pub open spec fn wf(&self) -> bool {
        let b = self.bytes();
        &&& self.cursor <= b.len()
        &&& is_boundary(b, self.cursor as int)
        &&& match self.selection {
            Some(r) => r.start < r.end <= b.len() && is_boundary(b, r.start as int)
                && is_boundary(b, r.end as int),
            None => true,
        }
        &&& match self.selection_anchor {
            Some(a) => a <= b.len() && is_boundary(b, a as int),
            None => true,
        }
    }

    /// Empty content, caret at 0, nothing selected, no anchor and no composition.
    pub open spec fn is_fresh(&self) -> bool {
        &&& self.content@.len() == 0
        &&& self.cursor == 0
        &&& self.selection is None
        &&& self.selection_anchor is None
        &&& self.ime_composition is None
    }

    /// Inserting `ins` keeps the content's length within `usize`.
    pub open spec fn fits(&self, ins: Seq<u8>) -> bool {
        self.bytes().len() + ins.len() <= usize::MAX
    }

    /// The bytes an edit replaces: the selection, or the empty range at the caret.
    pub open spec fn edit_start(&self) -> int {
        match self.selection {
            Some(r) => r.start as int,
            None => self.cursor as int,
        }
    }

    pub open spec fn edit_end(&self) -> int {
        match self.selection {
            Some(r) => r.end as int,
            None => self.cursor as int,
        }
    }

    /// An empty buffer with the caret at 0 and nothing selected or composing.
    pub fn new() -> (r: Self)
        ensures
            r.wf(),
            r.is_fresh(),
    {
        TextInputState {
            content: String::new(),
            cursor: 0,
            selection: None,
            selection_anchor: None,
            ime_composition: None,
        }
    }

    /// Replaces the selection (or the empty range at the caret) with `text` and moves the
    /// caret past it. Returns whether the content changed: always, except that an insertion
    /// whose result would not fit in memory is refused and changes nothing.
    pub fn insert_text(&mut self, text: &str) -> (changed: bool)
        requires
            old(self).wf(),
        ensures
            final(self).wf(),
            changed == old(self).fits(str_bytes(text)),
            changed ==> {
                &&& final(self).bytes() == spliced(
                    old(self).bytes(),
                    old(self).edit_start(),
                    old(self).edit_end(),
                    str_bytes(text),
                )
                &&& final(self).cursor == old(self).edit_start() + str_bytes(text).len()
                &&& final(self).selection is None
                &&& final(self).selection_anchor == reclamped(
                    old(self).selection_anchor,
                    final(self).bytes(),
                )
                &&& final(self).ime_composition == old(self).ime_composition
            },
            !changed ==> *final(self) == *old(self),
    {
        let (start, end) = match &self.selection {
            Some(sel) => (sel.start, sel.end),
            None => (self.cursor, self.cursor),
        };
        let ghost b = self.bytes();
        let added = text.as_bytes().len();
        let len = self.content.as_str().as_bytes().len();
        if added > usize::MAX - len {
            return false;
        }
        let content = splice(&self.content, start, end, text);
        proof {
            lemma_splice_boundaries(b, start as int, end as int, str_bytes(text));
        }
        self.content = content;
        self.cursor = start + added;
        self.selection = None;
        self.reclamp_anchor();
        true
    }

    /// Moves the drag anchor, if any, back onto a boundary of the current content.
    fn reclamp_anchor(&mut self)
        ensures
            final(self).content == old(self).content,
            final(self).cursor == old(self).cursor,
            final(self).selection == old(self).selection,
            final(self).ime_composition == old(self).ime_composition,
            final(self).selection_anchor == reclamped(old(self).selection_anchor, final(self).bytes()),
            match final(self).selection_anchor {
                Some(a) => a <= final(self).bytes().len() && is_boundary(final(self).bytes(), a as int),
                None => true,
            },
    {
        match self.selection_anchor {
            Some(a) => {
                let c = ensure_char_boundary(self.content.as_str(), a);
                self.selection_anchor = Some(c);
            },
            None => {},
        }
    }

    /// Removes the bytes `[start, end)`, leaves the caret at `start` and clears the selection.
    fn remove_range(&mut self, start: usize, end: usize)
        requires
            old(self).wf(),
            start <= end <= old(self).bytes().len(),
            is_boundary(old(self).bytes(), start as int),
            is_boundary(old(self).bytes(), end as int),
        ensures
            final(self).wf(),
            final(self).bytes() == spliced(
                old(self).bytes(),
                start as int,
                end as int,
                Seq::<u8>::empty(),
            ),
            final(self).cursor == start,
            final(self).selection is None,
            final(self).selection_anchor == reclamped(
                old(self).selection_anchor,
                final(self).bytes(),
            ),
            final(self).ime_composition == old(self).ime_composition,
    {
        let ghost b = self.bytes();
        let content = splice(&self.content, start, end, "");
        proof {
            reveal_strlit("");
            lemma_splice_boundaries(b, start as int, end as int, Seq::<u8>::empty());
        }
        self.content = content;
        self.cursor = start;
        self.selection = None;
        self.reclamp_anchor();
    }

    /// Deletes the selection, or else the character before the caret. Does nothing, and
    /// reports no change, at the start of an unselected buffer.
    pub fn backspace(&mut self) -> (changed: bool)
        requires
            old(self).wf(),
        ensures
            final(self).wf(),
            changed == (old(self).selection is Some || old(self).cursor > 0),
            changed ==> {
                let start = if old(self).selection is Some {
                    old(self).edit_start()
                } else {
                    prev_boundary(old(self).bytes(), old(self).cursor as int)
                };
                &&& final(self).bytes() == spliced(
                    old(self).bytes(),
                    start,
                    old(self).edit_end(),
                    Seq::<u8>::empty(),
                )
                &&& final(self).cursor == start
                &&& final(self).selection is None
                &&& final(self).selection_anchor == reclamped(
                    old(self).selection_anchor,
                    final(self).bytes(),
                )
                &&& final(self).ime_composition == old(self).ime_composition
            },
            !changed ==> *final(self) == *old(self),
    {
        match &self.selection {
            Some(sel) => {
                let (start, end) = (sel.start, sel.end);
                self.remove_range(start, end);
                true
            },
            None => {
                if self.cursor > 0 {
                    let prev = previous_char_boundary(self.content.as_str(), self.cursor);
                    let end = self.cursor;
                    self.remove_range(prev, end);
                    true
                } else {
                    false
                }
            },
        }
    }

    /// Deletes the selection, or else the character after the caret. Does nothing, and
    /// reports no change, at the end of an unselected buffer.
    pub fn delete(&mut self) -> (changed: bool)
        requires
            old(self).wf(),
        ensures
            final(self).wf(),
            changed == (old(self).selection is Some || old(self).cursor < old(self).bytes().len()),
            changed ==> {
                let end = if old(self).selection is Some {
                    old(self).edit_end()
                } else {
                    next_boundary(old(self).bytes(), old(self).cursor as int)
                };
                &&& final(self).bytes() == spliced(
                    old(self).bytes(),
                    old(self).edit_start(),
                    end,
                    Seq::<u8>::empty(),
                )
                &&& final(self).cursor == old(self).edit_start()
                &&& final(self).selection is None
                &&& final(self).selection_anchor == reclamped(
                    old(self).selection_anchor,
                    final(self).bytes(),
                )
                &&& final(self).ime_composition == old(self).ime_composition
            },
            !changed ==> *final(self) == *old(self),
    {
        match &self.selection {
            Some(sel) => {
                let (start, end) = (sel.start, sel.end);
                self.remove_range(start, end);
                true
            },
            None => {
                if self.cursor < self.content.as_str().as_bytes().len() {
                    let next = next_char_boundary(self.content.as_str(), self.cursor);
                    let start = self.cursor;
                    self.remove_range(start, next);
                    true
                } else {
                    false
                }
            },
        }
    }

    /// Moves the caret to the previous boundary; the selection is left as it is.
    pub fn move_cursor_left(&mut self)
        requires
            old(self).wf(),
        ensures
            final(self).wf(),
            final(self).cursor == prev_boundary(old(self).bytes(), old(self).cursor as int),
            final(self).content == old(self).content,
            final(self).selection == old(self).selection,
            final(self).selection_anchor == old(self).selection_anchor,
            final(self).ime_composition == old(self).ime_composition,
    {
        if self.cursor > 0 {
            self.cursor = previous_char_boundary(self.content.as_str(), self.cursor);
        }
    }

    /// Moves the caret to the next boundary, staying put at the end.
    pub fn move_cursor_right(&mut self)
        requires
            old(self).wf(),
        ensures
            final(self).wf(),
            final(self).cursor == next_boundary(old(self).bytes(), old(self).cursor as int),
            final(self).content == old(self).content,
            final(self).selection == old(self).selection,
            final(self).selection_anchor == old(self).selection_anchor,
            final(self).ime_composition == old(self).ime_composition,
    {
        if self.cursor < self.content.as_str().as_bytes().len() {
            self.cursor = next_char_boundary(self.content.as_str(), self.cursor);
        }
    }

    /// Moves the caret to the start of the content.
    pub fn move_cursor_home(&mut self)
        requires
            old(self).wf(),
        ensures
            final(self).wf(),
            final(self).cursor == 0,
            final(self).content == old(self).content,
            final(self).selection == old(self).selection,
            final(self).selection_anchor == old(self).selection_anchor,
            final(self).ime_composition == old(self).ime_composition,
    {
        self.cursor = 0;
    }

    /// Moves the caret to the end of the content.
    pub fn move_cursor_end(&mut self)
        requires
            old(self).wf(),
        ensures
            final(self).wf(),
            final(self).cursor == old(self).bytes().len(),
            final(self).content == old(self).content,
            final(self).selection == old(self).selection,
            final(self).selection_anchor == old(self).selection_anchor,
            final(self).ime_composition == old(self).ime_composition,
    {
        self.cursor = self.content.as_str().as_bytes().len();
    }

    /// Puts the caret at `position`, limited to the length and moved down to a boundary.
    /// The selection is left as it is.
    pub fn set_cursor(&mut self, position: usize)
        requires
            old(self).wf(),
        ensures
            final(self).wf(),
            final(self).cursor == clamp_offset(old(self).bytes(), position as int),
            final(self).content == old(self).content,
            final(self).selection == old(self).selection,
            final(self).selection_anchor == old(self).selection_anchor,
            final(self).ime_composition == old(self).ime_composition,
    {
        self.cursor = ensure_char_boundary(self.content.as_str(), position);
    }

    /// Replaces the whole content, puts the caret at its end, and drops the selection and
    /// the drag anchor, which referred to the old text.
    pub fn set_text(&mut self, text: &str) -> (changed: bool)
        requires
            old(self).wf(),
        ensures
            final(self).wf(),
            final(self).content@ == text@,
            final(self).cursor == str_bytes(text).len(),
            final(self).selection is None,
            final(self).selection_anchor is None,
            final(self).ime_composition == old(self).ime_composition,
            changed,
    {
        self.content = text.to_owned();
        self.cursor = text.as_bytes().len();
        self.selection = None;
        self.selection_anchor = None;
        true
    }

    /// Starts a drag at the caret: the caret becomes the anchor and the selection is dropped.
    pub fn start_selection(&mut self)
        requires
            old(self).wf(),
        ensures
            final(self).wf(),
            final(self).selection_anchor == Some(old(self).cursor),
            final(self).selection is None,
            final(self).content == old(self).content,
            final(self).cursor == old(self).cursor,
            final(self).ime_composition == old(self).ime_composition,
    {
        self.selection_anchor = Some(self.cursor);
        self.selection = None;
    }

    /// Starts a drag at `position` (clamped onto a boundary): caret and anchor both go there
    /// and the selection is dropped.
    pub fn start_selection_at(&mut self, position: usize)
        requires
            old(self).wf(),
        ensures
            final(self).wf(),
            final(self).cursor == clamp_offset(old(self).bytes(), position as int),
            final(self).selection_anchor == Some(final(self).cursor),
            final(self).selection is None,
            final(self).content == old(self).content,
            final(self).ime_composition == old(self).ime_composition,
    {
        let p = ensure_char_boundary(self.content.as_str(), position);
        self.cursor = p;
        self.selection_anchor = Some(p);
        self.selection = None;
    }

    /// Moves the caret to `position` (clamped onto a boundary) and selects from the anchor
    /// to there. Without an anchor the caret's old place becomes the anchor, which then
    /// stays until a drag restarts or the caret is set without extending.
    pub fn extend_selection_to(&mut self, position: usize)
        requires
            old(self).wf(),
        ensures
            final(self).wf(),
            ({
                let anchor = match old(self).selection_anchor {
                    Some(a) => a,
                    None => old(self).cursor,
                };
                let p = clamp_offset(old(self).bytes(), position as int);
                &&& final(self).cursor == p
                &&& final(self).selection == span(anchor as int, p)
                &&& final(self).selection_anchor == Some(anchor)
            }),
            final(self).content == old(self).content,
            final(self).ime_composition == old(self).ime_composition,
    {
        let p = ensure_char_boundary(self.content.as_str(), position);
        let anchor = match self.selection_anchor {
            Some(a) => a,
            None => self.cursor,
        };
        if anchor < p {
            self.selection = Some(anchor..p);
        } else if p < anchor {
            self.selection = Some(p..anchor);
        } else {
            self.selection = None;
        }
        self.cursor = p;
        self.selection_anchor = Some(anchor);
    }

    /// With `extend`, as `extend_selection_to`; otherwise moves the caret to `position`
    /// (clamped onto a boundary) and drops both the selection and the anchor.
    pub fn set_cursor_with_extend(&mut self, position: usize, extend: bool)
        requires
            old(self).wf(),
        ensures
            final(self).wf(),
            final(self).content == old(self).content,
            final(self).ime_composition == old(self).ime_composition,
            final(self).cursor == clamp_offset(old(self).bytes(), position as int),
            extend ==> {
                let anchor = match old(self).selection_anchor {
                    Some(a) => a,
                    None => old(self).cursor,
                };
                &&& final(self).selection == span(anchor as int, final(self).cursor as int)
                &&& final(self).selection_anchor == Some(anchor)
            },
            !extend ==> final(self).selection is None && final(self).selection_anchor is None,
    {
        if extend {
            self.extend_selection_to(position);
        } else {
            self.cursor = ensure_char_boundary(self.content.as_str(), position);
            self.selection = None;
            self.selection_anchor = None;
        }
    }

    /// Selects `[start, end)` and puts the caret at `cursor`, each clamped onto a boundary.
    /// A range that comes out empty or reversed selects nothing. The anchor is kept.
    pub fn set_selection(&mut self, start: usize, end: usize, cursor: usize)
        requires
            old(self).wf(),
        ensures
            final(self).wf(),
            ({
                let b = old(self).bytes();
                let s = clamp_offset(b, start as int);
                let e = clamp_offset(b, end as int);
                &&& final(self).selection == (if s < e {
                    Some(Range { start: s as usize, end: e as usize })
                } else {
                    None
                })
                &&& final(self).cursor == clamp_offset(b, cursor as int)
            }),
            final(self).content == old(self).content,
            final(self).selection_anchor == old(self).selection_anchor,
            final(self).ime_composition == old(self).ime_composition,
    {
        let text = self.content.as_str();
        let s = ensure_char_boundary(text, start);
        let e = ensure_char_boundary(text, end);
        let c = ensure_char_boundary(text, cursor);
        if s < e {
            self.selection = Some(s..e);
        } else {
            self.selection = None;
        }
        self.cursor = c;
    }

    /// Drops the selection; the anchor is kept.
    pub fn clear_selection(&mut self)
        requires
            old(self).wf(),
        ensures
            final(self).wf(),
            final(self).selection is None,
            final(self).content == old(self).content,
            final(self).cursor == old(self).cursor,
            final(self).selection_anchor == old(self).selection_anchor,
            final(self).ime_composition == old(self).ime_composition,
    {
        self.selection = None;
    }

    /// The selected text, if anything is selected.
    pub fn get_selection_text(&self) -> (r: Option<&str>)
        requires
            self.wf(),
        ensures
            match self.selection {
                Some(sel) => r is Some && str_bytes(r->0) == self.bytes().subrange(
                    sel.start as int,
                    sel.end as int,
                ),
                None => r is None,
            },
    {
        match &self.selection {
            Some(sel) => {
                let ghost b = self.bytes();
                let text = self.content.as_str();
                proof {
                    lemma_boundary_agrees(b, sel.end as int);
                }
                let (left, _tail) = text.split_at(sel.end);
                proof {
                    let lb = str_bytes(left);
                    assert(lb =~= b.subrange(0, sel.end as int));
                    if 0 < sel.start {
                        assert(lb[sel.start as int] == b[sel.start as int]);
                    }
                    lemma_boundary_agrees(lb, sel.start as int);
                }
                let (_head, mid) = left.split_at(sel.start);
                proof {
                    assert(str_bytes(mid) =~= b.subrange(sel.start as int, sel.end as int));
                }
                Some(mid)
            },
            None => None,
        }
    }

    /// A copy of the selected range.
    pub fn get_selection(&self) -> (r: Option<Range<usize>>)
        ensures
            r == self.selection,
    {
        match &self.selection {
            Some(sel) => Some(sel.start..sel.end),
            None => None,
        }
    }

    /// Replaces the IME overlay; empty text clears it instead. The content is untouched.
    pub fn set_preedit(&mut self, text: &str, cursor_offset: usize)
        requires
            old(self).wf(),
        ensures
            final(self).wf(),
            text@.len() == 0 ==> final(self).ime_composition is None,
            text@.len() > 0 ==> (final(self).ime_composition matches Some(c) && c.text@ == text@
                && c.cursor_offset == cursor_offset),
            final(self).content == old(self).content,
            final(self).cursor == old(self).cursor,
            final(self).selection == old(self).selection,
            final(self).selection_anchor == old(self).selection_anchor,
    {
        if text.is_empty() {
            self.ime_composition = None;
        } else {
            self.ime_composition = Some(ImeComposition { text: text.to_owned(), cursor_offset });
        }
    }

    /// Drops the IME overlay without touching the content.
    pub fn clear_preedit(&mut self)
        requires
            old(self).wf(),
        ensures
            final(self).wf(),
            final(self).ime_composition is None,
            final(self).content == old(self).content,
            final(self).cursor == old(self).cursor,
            final(self).selection == old(self).selection,
            final(self).selection_anchor == old(self).selection_anchor,
    {
        self.ime_composition = None;
    }

    /// Ends composition: drops the overlay, then inserts `text` as `insert_text` does
    /// (refusing, as it does, a result that would not fit in memory).
    pub fn commit(&mut self, text: &str) -> (changed: bool)
        requires
            old(self).wf(),
        ensures
            final(self).wf(),
            changed == old(self).fits(str_bytes(text)),
            changed ==> {
                &&& final(self).bytes() == spliced(
                    old(self).bytes(),
                    old(self).edit_start(),
                    old(self).edit_end(),
                    str_bytes(text),
                )
                &&& final(self).cursor == old(self).edit_start() + str_bytes(text).len()
                &&& final(self).selection is None
                &&& final(self).selection_anchor == reclamped(
                    old(self).selection_anchor,
                    final(self).bytes(),
                )
                &&& final(self).ime_composition is None
            },
            !changed ==> ({
                &&& final(self).content == old(self).content
                &&& final(self).cursor == old(self).cursor
                &&& final(self).selection == old(self).selection
                &&& final(self).selection_anchor == old(self).selection_anchor
                &&& final(self).ime_composition is None
            }),
    {
        self.ime_composition = None;
        self.insert_text(text)
    }

    /// The text to lay out for display: the content with the IME overlay, if any, spliced
    /// in at the caret. The state itself is not changed.
    pub fn display_text(&self) -> (r: String)
        requires
            self.wf(),
        ensures
            match self.ime_composition {
                Some(c) => utf8_of(r@) == spliced(
                    self.bytes(),
                    self.cursor as int,
                    self.cursor as int,
                    utf8_of(c.text@),
                ),
                None => r@ == self.content@,
            },
    {
        match &self.ime_composition {
            Some(c) => splice(&self.content, self.cursor, self.cursor, c.text.as_str()),
            None => self.content.clone(),
        }
    }

    /// Inserts one character as `insert_text` would insert its encoding.
    pub fn insert_char(&mut self, ch: char) -> (changed: bool)
        requires
            old(self).wf(),
        ensures
            final(self).wf(),
            changed == old(self).fits(utf8_of(seq![ch])),
            changed ==> {
                &&& final(self).bytes() == spliced(
                    old(self).bytes(),
                    old(self).edit_start(),
                    old(self).edit_end(),
                    utf8_of(seq![ch]),
                )
                &&& final(self).cursor == old(self).edit_start() + utf8_of(seq![ch]).len()
                &&& final(self).selection is None
                &&& final(self).selection_anchor == reclamped(
                    old(self).selection_anchor,
                    final(self).bytes(),
                )
                &&& final(self).ime_composition == old(self).ime_composition
            },
            !changed ==> *final(self) == *old(self),
    {
        let s = char_to_string(ch);
        self.insert_text(s.as_str())
    }
}

} // verus!
