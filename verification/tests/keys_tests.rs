use mars_robots::keys::{handle_key, Key, KeyHandleResult, KeyKind, KeyPress};

fn press(code: Key) -> KeyPress {
    KeyPress { code, kind: KeyKind::Press }
}

#[test]
fn q_enter_and_esc_end_the_run() {
    assert_eq!(handle_key(press(Key::Char('q'))), KeyHandleResult::Exit);
    assert_eq!(handle_key(press(Key::Enter)), KeyHandleResult::Exit);
    assert_eq!(handle_key(press(Key::Esc)), KeyHandleResult::Exit);
}

#[test]
fn other_keys_let_the_run_go_on() {
    assert_eq!(handle_key(press(Key::Char('x'))), KeyHandleResult::Continue);
    assert_eq!(handle_key(press(Key::Char('Q'))), KeyHandleResult::Continue);
    assert_eq!(handle_key(press(Key::Char(' '))), KeyHandleResult::Continue);
    assert_eq!(handle_key(press(Key::Other)), KeyHandleResult::Continue);
}

#[test]
fn a_key_that_comes_up_asks_for_nothing() {
    for code in [Key::Char('q'), Key::Enter, Key::Esc, Key::Other] {
        let event = KeyPress { code, kind: KeyKind::Release };
        assert_eq!(handle_key(event), KeyHandleResult::Continue);
    }
}

#[test]
fn a_held_key_counts_like_a_pressed_one() {
    let held = |code| KeyPress { code, kind: KeyKind::Repeat };
    assert_eq!(handle_key(held(Key::Char('q'))), KeyHandleResult::Exit);
    assert_eq!(handle_key(held(Key::Enter)), KeyHandleResult::Exit);
    assert_eq!(handle_key(held(Key::Esc)), KeyHandleResult::Exit);
    assert_eq!(handle_key(held(Key::Char('a'))), KeyHandleResult::Continue);
}

#[test]
fn is_exit_tells_the_two_results_apart() {
    assert!(KeyHandleResult::Exit.is_exit());
    assert!(!KeyHandleResult::Continue.is_exit());
}

#[test]
fn the_default_result_is_to_go_on() {
    assert_eq!(KeyHandleResult::default(), KeyHandleResult::Continue);
    assert!(!KeyHandleResult::default().is_exit());
}
