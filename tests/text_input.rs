use mcore::boundary::{ensure_char_boundary, next_char_boundary, previous_char_boundary};
use mcore::manager::TextInputManager;
use mcore::measure::{caret_marker, caret_marker_text};
use mcore::text_input::TextInputState;

fn well_formed(state: &TextInputState) -> bool {
    let c = &state.content;
    let cursor_ok = state.cursor <= c.len() && c.is_char_boundary(state.cursor);
    let sel_ok = match &state.selection {
        Some(r) => r.start < r.end && c.is_char_boundary(r.start) && c.is_char_boundary(r.end),
        None => true,
    };
    let anchor_ok = match state.selection_anchor {
        Some(a) => c.is_char_boundary(a),
        None => true,
    };
    cursor_ok && sel_ok && anchor_ok
}

#[test]
fn test_insert_char() {
    let mut state = TextInputState::new();
    state.insert_char('H');
    state.insert_char('i');
    assert_eq!(state.content, "Hi");
    assert_eq!(state.cursor, 2);
}

#[test]
fn test_backspace() {
    let mut state = TextInputState::new();
    state.insert_text("Hello");
    state.backspace();
    assert_eq!(state.content, "Hell");
    assert_eq!(state.cursor, 4);
}

#[test]
fn test_cursor_movement() {
    let mut state = TextInputState::new();
    state.insert_text("Test");
    state.move_cursor_home();
    assert_eq!(state.cursor, 0);
    state.move_cursor_right();
    assert_eq!(state.cursor, 1);
    state.move_cursor_end();
    assert_eq!(state.cursor, 4);
}

#[test]
fn test_utf8_handling() {
    let mut state = TextInputState::new();
    state.insert_char('日'); // 3 bytes in UTF-8
    assert_eq!(state.cursor, 3);
    state.insert_char('本'); // 3 bytes in UTF-8
    assert_eq!(state.cursor, 6);
    state.backspace();
    assert_eq!(state.content, "日");
    assert_eq!(state.cursor, 3);
}

#[test]
fn backspace_after_set_text() {
    let mut state = TextInputState::new();
    state.set_text("Hello");
    assert_eq!(state.cursor, 5);
    assert!(state.backspace());
    assert_eq!(state.content, "Hell");
    assert_eq!(state.cursor, 4);
}

#[test]
fn multibyte_backspace_is_atomic() {
    let mut state = TextInputState::new();
    state.set_text("日本");
    assert_eq!(state.content.len(), 6);
    assert_eq!(state.cursor, 6);
    assert!(state.backspace());
    assert_eq!(state.content, "日");
    assert_eq!(state.content.len(), 3);
    assert_eq!(state.cursor, 3);
}

#[test]
fn drag_selection_keeps_anchor() {
    let mut state = TextInputState::new();
    state.set_text("Hello");
    state.start_selection_at(2);
    assert_eq!(state.selection, None);
    assert_eq!(state.selection_anchor, Some(2));
    state.extend_selection_to(4);
    assert_eq!(state.selection, Some(2..4));
    assert_eq!(state.cursor, 4);
    state.extend_selection_to(1);
    assert_eq!(state.selection, Some(1..2));
    assert_eq!(state.selection_anchor, Some(2));
    assert_eq!(state.cursor, 1);
}

#[test]
fn ime_commit_inserts_text() {
    let mut state = TextInputState::new();
    state.set_text("X");
    assert_eq!(state.cursor, 1);
    state.set_preedit("ab", 1);
    assert_eq!(state.content, "X");
    assert_eq!(state.display_text(), "Xab");
    assert!(state.commit("ab"));
    assert_eq!(state.content, "Xab");
    assert_eq!(state.cursor, 3);
    assert!(state.ime_composition.is_none());
}

#[test]
fn preedit_is_spliced_at_cursor_for_display() {
    let mut state = TextInputState::new();
    state.set_text("ac");
    state.set_cursor(1);
    state.set_preedit("b", 0);
    assert_eq!(state.display_text(), "abc");
    assert_eq!(state.content, "ac");
    let comp = state.ime_composition.clone().unwrap();
    assert_eq!(comp.text, "b");
    assert_eq!(comp.cursor_offset, 0);
    state.clear_preedit();
    assert!(state.ime_composition.is_none());
    assert_eq!(state.display_text(), "ac");
}

#[test]
fn empty_preedit_clears_overlay() {
    let mut state = TextInputState::new();
    state.set_preedit("x", 1);
    assert!(state.ime_composition.is_some());
    state.set_preedit("", 0);
    assert!(state.ime_composition.is_none());
}

#[test]
fn backspace_at_start_is_noop() {
    let mut state = TextInputState::new();
    assert!(!state.backspace());
    state.set_text("ab");
    state.move_cursor_home();
    assert!(!state.backspace());
    assert_eq!(state.content, "ab");
    assert_eq!(state.cursor, 0);
}

#[test]
fn delete_removes_next_char_and_is_noop_at_end() {
    let mut state = TextInputState::new();
    state.set_text("a日b");
    state.set_cursor(1);
    assert!(state.delete());
    assert_eq!(state.content, "ab");
    assert_eq!(state.cursor, 1);
    state.move_cursor_end();
    assert!(!state.delete());
    assert_eq!(state.content, "ab");
}

#[test]
fn insert_replaces_selection() {
    let mut state = TextInputState::new();
    state.set_text("Hello");
    state.set_selection(1, 4, 4);
    assert_eq!(state.get_selection_text(), Some("ell"));
    state.insert_text("ipp");
    assert_eq!(state.content, "Hippo");
    assert_eq!(state.cursor, 4);
    assert_eq!(state.selection, None);
}

#[test]
fn backspace_and_delete_remove_selection() {
    let mut state = TextInputState::new();
    state.set_text("abcdef");
    state.set_selection(1, 3, 3);
    assert!(state.backspace());
    assert_eq!(state.content, "adef");
    assert_eq!(state.cursor, 1);
    state.set_selection(2, 4, 2);
    assert!(state.delete());
    assert_eq!(state.content, "ad");
    assert_eq!(state.cursor, 2);
}

#[test]
fn set_cursor_clamps_to_boundary() {
    let mut state = TextInputState::new();
    state.set_text("a日");
    state.set_cursor(2);
    assert_eq!(state.cursor, 1);
    state.set_cursor(3);
    assert_eq!(state.cursor, 1);
    state.set_cursor(4);
    assert_eq!(state.cursor, 4);
    state.set_cursor(100);
    assert_eq!(state.cursor, 4);
}

#[test]
fn moves_step_over_whole_characters() {
    let mut state = TextInputState::new();
    state.set_text("日本");
    state.move_cursor_left();
    assert_eq!(state.cursor, 3);
    state.move_cursor_left();
    assert_eq!(state.cursor, 0);
    state.move_cursor_left();
    assert_eq!(state.cursor, 0);
    state.move_cursor_right();
    assert_eq!(state.cursor, 3);
    state.move_cursor_right();
    state.move_cursor_right();
    assert_eq!(state.cursor, 6);
}

#[test]
fn extend_to_anchor_collapses_selection() {
    let mut state = TextInputState::new();
    state.set_text("Hello");
    state.start_selection_at(3);
    state.extend_selection_to(3);
    assert_eq!(state.selection, None);
    assert_eq!(state.get_selection_text(), None);
}

#[test]
fn extend_without_anchor_uses_cursor() {
    let mut state = TextInputState::new();
    state.set_text("Hello");
    state.set_cursor(1);
    state.extend_selection_to(3);
    assert_eq!(state.selection, Some(1..3));
    assert_eq!(state.selection_anchor, Some(1));
}

#[test]
fn set_cursor_with_extend_variants() {
    let mut state = TextInputState::new();
    state.set_text("Hello");
    state.start_selection_at(1);
    state.set_cursor_with_extend(4, true);
    assert_eq!(state.selection, Some(1..4));
    state.set_cursor_with_extend(2, false);
    assert_eq!(state.cursor, 2);
    assert_eq!(state.selection, None);
    assert_eq!(state.selection_anchor, None);
}

#[test]
fn start_selection_anchors_at_cursor() {
    let mut state = TextInputState::new();
    state.set_text("Hello");
    state.set_cursor(2);
    state.start_selection();
    assert_eq!(state.selection, None);
    assert_eq!(state.selection_anchor, Some(2));
    state.extend_selection_to(5);
    assert_eq!(state.get_selection_text(), Some("llo"));
}

#[test]
fn set_selection_reversed_selects_nothing() {
    let mut state = TextInputState::new();
    state.set_text("Hello");
    state.set_selection(4, 2, 1);
    assert_eq!(state.get_selection(), None);
    assert_eq!(state.cursor, 1);
    state.set_selection(1, 3, 3);
    assert_eq!(state.get_selection(), Some(1..3));
    state.clear_selection();
    assert_eq!(state.get_selection(), None);
}

#[test]
fn anchor_follows_content_changes() {
    let mut state = TextInputState::new();
    state.set_text("日本");
    state.start_selection_at(6);
    state.set_cursor(0);
    state.set_cursor_with_extend(3, true);
    assert_eq!(state.selection, Some(3..6));
    assert!(state.backspace());
    assert_eq!(state.content, "日");
    assert_eq!(state.selection_anchor, Some(3));
    assert!(well_formed(&state));
}

#[test]
fn reachable_states_stay_well_formed() {
    let mut state = TextInputState::new();
    state.set_text("aé日😀b");
    let len = state.content.len();
    for pos in 0..=len + 2 {
        state.start_selection_at(pos);
        assert!(well_formed(&state));
        for other in 0..=len + 2 {
            state.extend_selection_to(other);
            assert!(well_formed(&state));
            if let Some(r) = &state.selection {
                assert!(r.start < r.end);
            }
        }
        state.set_selection(pos, len + 2 - pos, pos + 1);
        assert!(well_formed(&state));
    }
    state.set_selection(2, 7, 7);
    state.insert_char('日');
    assert!(well_formed(&state));
    state.backspace();
    state.delete();
    assert!(well_formed(&state));
}

#[test]
fn boundary_helpers() {
    let text = "a日b";
    assert_eq!(previous_char_boundary(text, 4), 1);
    assert_eq!(previous_char_boundary(text, 1), 0);
    assert_eq!(previous_char_boundary(text, 0), 0);
    assert_eq!(next_char_boundary(text, 1), 4);
    assert_eq!(next_char_boundary(text, 4), 5);
    assert_eq!(next_char_boundary(text, 5), 5);
    assert_eq!(ensure_char_boundary(text, 3), 1);
    assert_eq!(ensure_char_boundary(text, 9), 5);
}

#[test]
fn clamp_twice_equals_once() {
    let text = "x日😀";
    for pos in 0..12 {
        let once = ensure_char_boundary(text, pos);
        assert_eq!(ensure_char_boundary(text, once), once);
    }
}

#[test]
fn marker_text_keeps_trailing_spaces() {
    let text = "Hi   ";
    assert_eq!(caret_marker(), "|");
    assert_eq!(caret_marker_text(text, 5), Some("Hi   |".to_string()));
    assert_eq!(caret_marker_text(text, 3), Some("Hi |".to_string()));
    assert_eq!(caret_marker_text(text, 0), None);
    assert_eq!(caret_marker_text(text, 50), Some("Hi   |".to_string()));
    assert_eq!(caret_marker_text("日本", 4), Some("日|".to_string()));
    assert_eq!(caret_marker_text("日本", 2), None);
}

#[test]
fn marker_texts_nest_as_offset_grows() {
    let text = "ab 日 c";
    let mut last = String::new();
    for offset in 0..=text.len() {
        let m = caret_marker_text(text, offset).unwrap_or_else(|| "|".to_string());
        let measured = &m[..m.len() - 1];
        assert!(measured.starts_with(last.as_str()));
        last = measured.to_string();
    }
}

#[test]
fn manager_creates_lazily() {
    let mut manager = TextInputManager::new();
    assert!(manager.get(7).is_none());
    assert!(manager.get_mut(7).is_none());
    manager.get_or_create(7).insert_text("hey");
    manager.get_or_create(9).insert_char('x');
    assert_eq!(manager.get(7).unwrap().content, "hey");
    assert_eq!(manager.get(9).unwrap().content, "x");
    manager.get_mut(7).unwrap().backspace();
    assert_eq!(manager.get(7).unwrap().content, "he");
    assert_eq!(manager.get_or_create(7).cursor, 2);
}
