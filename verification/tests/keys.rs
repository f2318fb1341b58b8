//! Keyboard matrix, trackball and terminal key mapping.

use reticula::host::{map_key, HostKeyboard, TermKey};
use reticula::input::{KeyCode, KeyEvent, KeyState};
use reticula::tdeck::{bit, key_for, MatrixScanner, TrackballLines, TrackballState};

#[test]
fn maps_printable_keys() {
    assert_eq!(key_for(0, 0, false, false), Some(KeyCode::Char('q')));
    assert_eq!(key_for(4, 6, false, false), Some(KeyCode::Char('k')));
    // Symbol layer: sym held gives the symbol, else the base letter.
    assert_eq!(key_for(0, 1, false, false), Some(KeyCode::Char('w')));
    assert_eq!(key_for(0, 1, true, false), Some(KeyCode::Char('1')));
    // Shift uppercases letters only.
    assert_eq!(key_for(0, 0, false, true), Some(KeyCode::Char('Q')));
}

#[test]
fn special_keys() {
    assert_eq!(key_for(3, 3, false, false), Some(KeyCode::Enter));
    assert_eq!(key_for(4, 3, false, false), Some(KeyCode::Backspace));
    assert_eq!(key_for(0, 5, false, false), Some(KeyCode::Space));
    assert_eq!(key_for(0, 4, false, false), None); // Alt: handled separately
    assert_eq!(key_for(0, 2, false, false), None); // Symbol layer key
}

#[test]
fn symbol_layer_falls_back_to_base_and_shift_spares_symbols() {
    // (4, 4) has no symbol: the base '$' stays.
    assert_eq!(key_for(4, 4, true, false), Some(KeyCode::Char('$')));
    // Shift does not change a symbol.
    assert_eq!(key_for(0, 1, true, true), Some(KeyCode::Char('1')));
    // (2, 3) is a shift key; (2, 6) gives 'f', or '6' on the symbol layer.
    assert_eq!(key_for(2, 3, false, false), None);
    assert_eq!(key_for(2, 6, true, false), Some(KeyCode::Char('6')));
    // A position with neither keycap gives nothing.
    assert_eq!(key_for(2, 3, true, true), None);
}

#[test]
fn matrix_bits_are_column_masks() {
    let m = [0b0001_0000u8, 0, 0, 0b1000, 0];
    assert!(bit(&m, 0, 4));
    assert!(!bit(&m, 0, 3));
    assert!(bit(&m, 3, 3));
}

#[test]
fn first_matrix_only_seeds() {
    let mut s = MatrixScanner::new();
    // 'q' is down at start-up: no event, but it is remembered.
    let ev = s.scan([1, 0, 0, 0, 0], 16);
    assert!(ev.is_empty());
    assert!(s.initialized);
    // Still held: no new press.
    assert!(s.scan([1, 0, 0, 0, 0], 16).is_empty());
    // Released, then pressed again: one press.
    assert!(s.scan([0, 0, 0, 0, 0], 16).is_empty());
    let ev = s.scan([1, 0, 0, 0, 0], 16);
    assert_eq!(ev, vec![KeyEvent::pressed(KeyCode::Char('q'))]);
}

#[test]
fn alt_edges_come_first_and_capacity_limits() {
    let mut s = MatrixScanner::new();
    s.scan([0, 0, 0, 0, 0], 16);
    // Alt (col 0, row 4) and 'e' (col 1, row 0) and 'w' (col 0, row 1).
    let ev = s.scan([0b1_0010, 0b1, 0, 0, 0], 16);
    assert_eq!(
        ev,
        vec![
            KeyEvent { code: KeyCode::Alt, state: KeyState::Pressed },
            KeyEvent::pressed(KeyCode::Char('e')),
            KeyEvent::pressed(KeyCode::Char('w')),
        ]
    );
    // Alt released: one release event; nothing else changed.
    let ev = s.scan([0b0_0010, 0b1, 0, 0, 0], 1);
    assert_eq!(ev, vec![KeyEvent { code: KeyCode::Alt, state: KeyState::Released }]);
    // Capacity cuts the list.
    let mut s2 = MatrixScanner::new();
    s2.scan([0, 0, 0, 0, 0], 16);
    let ev = s2.scan([0b1, 0b1, 0b1, 0, 0], 2);
    assert_eq!(ev.len(), 2);
}

#[test]
fn shift_uppercases_pressed_letters() {
    let mut s = MatrixScanner::new();
    s.scan([0, 0, 0, 0, 0], 16);
    // Left shift (col 1, row 6) held with 'q'.
    let ev = s.scan([0b1, 0b100_0000, 0, 0, 0], 16);
    assert_eq!(ev, vec![KeyEvent::pressed(KeyCode::Char('Q'))]);
}

#[test]
fn trackball_presses_on_falling_edges() {
    let idle = TrackballLines { up: false, down: false, left: false, right: false, click: false };
    let mut t = TrackballState::new();
    // Lines idle: nothing; a line already low at start gives nothing.
    assert!(t.poll(idle, true, 8).is_empty());
    let moved = TrackballLines { up: true, left: true, click: true, ..idle };
    let ev = t.poll(moved, true, 8);
    assert_eq!(
        ev,
        vec![
            KeyEvent::pressed(KeyCode::Up),
            KeyEvent::pressed(KeyCode::Esc),
            KeyEvent::pressed(KeyCode::Enter),
        ]
    );
    // Held: no repeat.
    assert!(t.poll(moved, true, 8).is_empty());
    // Within the debounce time: the edge is dropped but remembered.
    assert!(t.poll(TrackballLines { right: true, ..idle }, false, 8).is_empty());
    assert!(t.poll(TrackballLines { right: true, ..idle }, true, 8).is_empty());
}

#[test]
fn terminal_keys_map_to_logical_keys() {
    assert_eq!(map_key(TermKey::Char('a'), false), KeyCode::Char('a'));
    assert_eq!(map_key(TermKey::Char('a'), true), KeyCode::Unknown(b'a'));
    assert_eq!(map_key(TermKey::Char('\n'), false), KeyCode::Enter);
    assert_eq!(map_key(TermKey::Char(' '), false), KeyCode::Space);
    assert_eq!(map_key(TermKey::Char('é'), false), KeyCode::Unknown(0));
    assert_eq!(map_key(TermKey::F(5), false), KeyCode::F(5));
    assert_eq!(map_key(TermKey::PageDown, true), KeyCode::PageDown);
    assert_eq!(map_key(TermKey::Other, false), KeyCode::Unknown(0));
}

#[test]
fn key_queue_is_first_in_first_out() {
    let mut q = HostKeyboard::new();
    q.push(KeyEvent::pressed(KeyCode::Up));
    q.push(KeyEvent::pressed(KeyCode::Down));
    q.push(KeyEvent::pressed(KeyCode::Enter));
    assert_eq!(q.pending(), 3);
    assert_eq!(q.read(2), vec![KeyEvent::pressed(KeyCode::Up), KeyEvent::pressed(KeyCode::Down)]);
    assert_eq!(q.read(8), vec![KeyEvent::pressed(KeyCode::Enter)]);
    assert_eq!(q.pending(), 0);
    assert!(q.read(8).is_empty());
}

#[test]
fn key_codes_as_text_and_bytes() {
    assert!(KeyCode::Char('x').is_text());
    assert!(KeyCode::Space.is_text());
    assert!(!KeyCode::Enter.is_text());
    assert_eq!(KeyCode::Char('A').as_byte(), Some(65));
    assert_eq!(KeyCode::Char('é').as_byte(), None);
    assert_eq!(KeyCode::Enter.as_byte(), Some(10));
    assert_eq!(KeyCode::from('\r'), KeyCode::Enter);
    assert_eq!(KeyCode::from('\u{7f}'), KeyCode::Backspace);
    assert_eq!(KeyEvent::released(KeyCode::Alt).state, KeyState::Released);
}
