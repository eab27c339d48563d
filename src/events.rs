//! The discrete editing events a host sends for a widget, and the read queries it makes.
use vstd::prelude::*;

use crate::boundary::{clamp_offset, next_boundary, prev_boundary, str_bytes};
use crate::manager::TextInputManager;
use crate::text_input::{reclamped, span, spliced, utf8_of, TextInputState};

verus! {

/// What a host event asks for.
#[derive(Clone, Copy, PartialEq, Eq, Debug, Structural)]
pub enum McoreTextEventKind {
    InsertChar,
    Backspace,
    Delete,
    MoveCursor,
    SetCursor,
    InsertText,
}

/// Where a `MoveCursor` event sends the caret.
#[derive(Clone, Copy, PartialEq, Eq, Debug, Structural)]
pub enum McoreCursorDirection {
    Left,
    Right,
    Home,
    End,
}

/// One editing event. Only the fields its kind reads matter: `char_code` for
/// `InsertChar`, `direction` for `MoveCursor`, `cursor_position` for `SetCursor`,
/// `extend_selection` (non-zero to extend) for both of those, and `text` for `InsertText`
/// (`None` when the host passed no string).
pub struct McoreTextEvent {
    pub kind: McoreTextEventKind,
    pub char_code: u32,
    pub direction: McoreCursorDirection,
    pub extend_selection: u8,
    pub cursor_position: i32,
    pub text: Option<String>,
}

/// `code` is a Unicode scalar value: at most 0x10FFFF and not a surrogate.
pub open spec fn is_char_code(code: u32) -> bool {
    code <= 0x10FFFF && !(0xD800 <= code <= 0xDFFF)
}

/// Relies on `char::from_u32`: `Some` exactly for scalar values, holding that value.
#[verifier::external_body]
fn char_from_code(code: u32) -> (r: Option<char>)
    ensures
        r is Some == is_char_code(code),
        r matches Some(c) ==> c as u32 == code,
{
    char::from_u32(code)
}

/// `n` is `o` after inserting `ins` over the selection or at the caret.
pub open spec fn inserted(o: TextInputState, n: TextInputState, ins: Seq<u8>) -> bool {
    &&& n.bytes() == spliced(o.bytes(), o.edit_start(), o.edit_end(), ins)
    &&& n.cursor == o.edit_start() + ins.len()
    &&& n.selection is None
    &&& n.selection_anchor == reclamped(o.selection_anchor, n.bytes())
    &&& n.ime_composition == o.ime_composition
}

/// `n` is `o` after removing `[start, end)` and putting the caret at `start`.
pub open spec fn removed(o: TextInputState, n: TextInputState, start: int, end: int) -> bool {
    &&& n.bytes() == spliced(o.bytes(), start, end, Seq::<u8>::empty())
    &&& n.cursor == start
    &&& n.selection is None
    &&& n.selection_anchor == reclamped(o.selection_anchor, n.bytes())
    &&& n.ime_composition == o.ime_composition
}

/// Only the caret moved, to `p`.
pub open spec fn caret_moved(o: TextInputState, n: TextInputState, p: int) -> bool {
    &&& n.cursor == p
    &&& n.content == o.content
    &&& n.selection == o.selection
    &&& n.selection_anchor == o.selection_anchor
    &&& n.ime_composition == o.ime_composition
}

/// The caret went to `p`, selecting from the anchor (or the old caret) to there.
pub open spec fn extended(o: TextInputState, n: TextInputState, p: int) -> bool {
    let anchor = match o.selection_anchor {
        Some(a) => a,
        None => o.cursor,
    };
    &&& n.cursor == p
    &&& n.selection == span(anchor as int, p)
    &&& n.selection_anchor == Some(anchor)
    &&& n.content == o.content
    &&& n.ime_composition == o.ime_composition
}

/// The caret went to `p` and both the selection and the anchor were dropped.
pub open spec fn placed(o: TextInputState, n: TextInputState, p: int) -> bool {
    &&& n.cursor == p
    &&& n.selection is None
    &&& n.selection_anchor is None
    &&& n.content == o.content
    &&& n.ime_composition == o.ime_composition
}

/// The caret position a `MoveCursor` event aims at.
pub open spec fn move_target(s: TextInputState, d: McoreCursorDirection) -> int {
    match d {
        McoreCursorDirection::Left => prev_boundary(s.bytes(), s.cursor as int),
        McoreCursorDirection::Right => next_boundary(s.bytes(), s.cursor as int),
        McoreCursorDirection::Home => 0,
        McoreCursorDirection::End => s.bytes().len() as int,
    }
}

/// What handling `e` does to a state `o`, giving `n` and reporting `changed`.
/// Insertions that would not fit in memory are refused and change nothing.
pub open spec fn event_effect(
    o: TextInputState,
    n: TextInputState,
    e: McoreTextEvent,
    changed: bool,
) -> bool {
    match e.kind {
        McoreTextEventKind::InsertChar => if is_char_code(e.char_code) && o.bytes().len() + 4
            <= usize::MAX {
            inserted(o, n, utf8_of(seq![e.char_code as char])) && changed
        } else {
            n == o && !changed
        },
        McoreTextEventKind::Backspace => {
            &&& changed == (o.selection is Some || o.cursor > 0)
            &&& o.selection is Some ==> removed(o, n, o.edit_start(), o.edit_end())
            &&& (o.selection is None && o.cursor > 0) ==> removed(
                o,
                n,
                prev_boundary(o.bytes(), o.cursor as int),
                o.cursor as int,
            )
            &&& !changed ==> n == o
        },
        McoreTextEventKind::Delete => {
            &&& changed == (o.selection is Some || o.cursor < o.bytes().len())
            &&& o.selection is Some ==> removed(o, n, o.edit_start(), o.edit_end())
            &&& (o.selection is None && o.cursor < o.bytes().len()) ==> removed(
                o,
                n,
                o.cursor as int,
                next_boundary(o.bytes(), o.cursor as int),
            )
            &&& !changed ==> n == o
        },
        McoreTextEventKind::MoveCursor => {
            &&& !changed
            &&& e.extend_selection != 0 ==> extended(o, n, move_target(o, e.direction))
            &&& e.extend_selection == 0 ==> caret_moved(o, n, move_target(o, e.direction))
        },
        McoreTextEventKind::SetCursor => {
            let p = clamp_offset(
                o.bytes(),
                if e.cursor_position < 0 {
                    0
                } else {
                    e.cursor_position as int
                },
            );
            &&& !changed
            &&& e.extend_selection != 0 ==> extended(o, n, p)
            &&& e.extend_selection == 0 ==> placed(o, n, p)
        },
        McoreTextEventKind::InsertText => match e.text {
            Some(t) => if o.bytes().len() + utf8_of(t@).len() <= usize::MAX {
                inserted(o, n, utf8_of(t@)) && changed
            } else {
                n == o && !changed
            },
            None => n == o && !changed,
        },
    }
}

/// Applies one editing event to a widget's state and reports whether the content changed.
pub fn apply_text_event(state: &mut TextInputState, event: &McoreTextEvent) -> (changed: bool)
    requires
        old(state).wf(),
    ensures
        final(state).wf(),
        event_effect(*old(state), *final(state), *event, changed),
{
    let len = state.content.as_str().as_bytes().len();
    match event.kind {
        McoreTextEventKind::InsertChar => {
            match char_from_code(event.char_code) {
                Some(ch) => {
                    if len <= usize::MAX - 4 {
                        proof {
                            vstd::utf8::char_u32_cast(ch, event.char_code);
                            crate::text_input::lemma_char_width(ch);
                        }
                        state.insert_char(ch)
                    } else {
                        false
                    }
                },
                None => false,
            }
        },
        McoreTextEventKind::Backspace => state.backspace(),
        McoreTextEventKind::Delete => state.delete(),
        McoreTextEventKind::MoveCursor => {
            let target = match event.direction {
                McoreCursorDirection::Left => {
                    crate::boundary::previous_char_boundary(state.content.as_str(), state.cursor)
                },
                McoreCursorDirection::Right => {
                    crate::boundary::next_char_boundary(state.content.as_str(), state.cursor)
                },
                McoreCursorDirection::Home => 0,
                McoreCursorDirection::End => len,
            };
            if event.extend_selection != 0 {
                state.extend_selection_to(target);
            } else {
                match event.direction {
                    McoreCursorDirection::Left => state.move_cursor_left(),
                    McoreCursorDirection::Right => state.move_cursor_right(),
                    McoreCursorDirection::Home => state.move_cursor_home(),
                    McoreCursorDirection::End => state.move_cursor_end(),
                }
            }
            false
        },
        McoreTextEventKind::SetCursor => {
            let pos: usize = if event.cursor_position < 0 {
                0
            } else {
                event.cursor_position as usize
            };
            state.set_cursor_with_extend(pos, event.extend_selection != 0);
            false
        },
        McoreTextEventKind::InsertText => {
            match &event.text {
                Some(t) => {
                    let added = t.as_str().as_bytes().len();
                    if added <= usize::MAX - len {
                        state.insert_text(t.as_str())
                    } else {
                        false
                    }
                },
                None => false,
            }
        },
    }
}

/// Handles one event for widget `id`, creating its state on first use, and reports
/// whether the content changed.
pub fn text_input_event(manager: &mut TextInputManager, id: u64, event: &McoreTextEvent) -> (changed:
    bool)
    requires
        old(manager).wf(),
    ensures
        final(manager).wf(),
        final(manager)@.contains_key(id),
        final(manager)@ == old(manager)@.insert(id, final(manager)@[id]),
        old(manager)@.contains_key(id) ==> event_effect(
            old(manager)@[id],
            final(manager)@[id],
            *event,
            changed,
        ),
        !old(manager)@.contains_key(id) ==> exists|s: TextInputState|
            s.is_fresh() && s.wf() && event_effect(s, final(manager)@[id], *event, changed),
{
    let state = manager.get_or_create(id);
    let ghost before = *state;
    let changed = apply_text_event(state, event);
    proof {
        assert(before.wf() && event_effect(before, *state, *event, changed));
    }
    changed
}

/// Replaces the content of widget `id`, creating its state on first use.
pub fn text_input_set(manager: &mut TextInputManager, id: u64, text: &str)
    requires
        old(manager).wf(),
    ensures
        final(manager).wf(),
        final(manager)@.contains_key(id),
        final(manager)@ == old(manager)@.insert(id, final(manager)@[id]),
        final(manager)@[id].content@ == text@,
        final(manager)@[id].cursor == str_bytes(text).len(),
        final(manager)@[id].selection is None,
        final(manager)@[id].selection_anchor is None,
        old(manager)@.contains_key(id) ==> final(manager)@[id].ime_composition == old(
            manager,
        )@[id].ime_composition,
        !old(manager)@.contains_key(id) ==> final(manager)@[id].ime_composition is None,
{
    let state = manager.get_or_create(id);
    state.set_text(text);
}

/// The caret of widget `id`, or 0 for a widget never touched; an offset past `i32::MAX`
/// reads as `i32::MAX`.
pub fn text_input_cursor(manager: &TextInputManager, id: u64) -> (r: i32)
    requires
        manager.wf(),
    ensures
        manager@.contains_key(id) ==> r == (if manager@[id].cursor <= i32::MAX {
            manager@[id].cursor as i32
        } else {
            i32::MAX
        }),
        !manager@.contains_key(id) ==> r == 0,
{
    match manager.get(id) {
        Some(s) => {
            if s.cursor <= i32::MAX as usize {
                s.cursor as i32
            } else {
                i32::MAX
            }
        },
        None => 0,
    }
}

/// What fits of `content` in a buffer of `buf_len` bytes: as many leading bytes as leave
/// room for the terminating zero, then that zero. `None` when the buffer has no room at all.
pub open spec fn buffer_image(content: Seq<u8>, buf_len: i32) -> Option<Seq<u8>> {
    if buf_len <= 0 {
        None
    } else {
        let n = if content.len() < buf_len - 1 {
            content.len() as int
        } else {
            buf_len - 1
        };
        Some(content.subrange(0, n).push(0u8))
    }
}

/// The bytes to place in a host buffer of `buf_len` bytes for `text`: truncated so that the
/// terminating zero always fits.
pub fn terminated_prefix(text: &str, buf_len: i32) -> (r: Option<Vec<u8>>)
    ensures
        match buffer_image(str_bytes(text), buf_len) {
            Some(img) => r matches Some(v) && v@ == img,
            None => r is None,
        },
{
    if buf_len <= 0 {
        return None;
    }
    let bytes = text.as_bytes();
    let room = (buf_len - 1) as usize;
    let n = if bytes.len() < room {
        bytes.len()
    } else {
        room
    };
    let mut out: Vec<u8> = Vec::new();
    let mut i: usize = 0;
    while i < n
        invariant
            n <= bytes@.len(),
            i <= n,
            bytes@ == str_bytes(text),
            out@ == bytes@.subrange(0, i as int),
        decreases n - i,
    {
        out.push(bytes[i]);
        i = i + 1;
        proof {
            assert(out@ =~= bytes@.subrange(0, i as int));
        }
    }
    out.push(0u8);
    Some(out)
}

/// The content of widget `id` as it goes into a host buffer of `buf_len` bytes; a widget
/// never touched reads as empty.
pub fn text_input_get(manager: &TextInputManager, id: u64, buf_len: i32) -> (r: Option<Vec<u8>>)
    requires
        manager.wf(),
    ensures
        ({
            let content = if manager@.contains_key(id) {
                manager@[id].bytes()
            } else {
                Seq::<u8>::empty()
            };
            match buffer_image(content, buf_len) {
                Some(img) => r matches Some(v) && v@ == img,
                None => r is None,
            }
        }),
{
    match manager.get(id) {
        Some(s) => terminated_prefix(s.content.as_str(), buf_len),
        None => {
            proof {
                reveal_strlit("");
            }
            terminated_prefix("", buf_len)
        },
    }
}

} // verus!
