use ui4::textbox::{
    apply_key, apply_keys, cursor_step, focus_decision, insert_char, is_control_char, move_left,
    move_right, remove_char, textbox_step, FocusAction, PointerState, RepeatTimer, TextBox,
    BACKSPACE, DELETE, RETURN,
};

fn text_of(v: &[char]) -> String {
    v.iter().collect()
}

#[test]
fn insert_steps_cursor_past_the_character() {
    let mut text: Vec<char> = vec!['a', 'c'];
    let mut cursor: usize = 1;
    insert_char(&mut text, &mut cursor, 'b');
    assert_eq!(text_of(&text), "abc");
    assert_eq!(cursor, 2);
}

#[test]
fn remove_takes_the_character_under_the_cursor() {
    let mut text: Vec<char> = vec!['a', 'b', 'c'];
    let mut cursor: usize = 1;
    remove_char(&mut text, &mut cursor);
    assert_eq!(text_of(&text), "ac");
    assert_eq!(cursor, 1);

    // At the end there is nothing under the cursor.
    let mut cursor: usize = 2;
    remove_char(&mut text, &mut cursor);
    assert_eq!(text_of(&text), "ac");
    assert_eq!(cursor, 2);
}

#[test]
fn moves_clamp_at_both_ends() {
    let text: Vec<char> = vec!['a', 'b'];
    let mut cursor: usize = 0;
    move_left(&text, &mut cursor);
    assert_eq!(cursor, 0);
    move_right(&text, &mut cursor);
    assert_eq!(cursor, 1);
    move_right(&text, &mut cursor);
    assert_eq!(cursor, 2);
    move_right(&text, &mut cursor);
    assert_eq!(cursor, 2);
    move_left(&text, &mut cursor);
    assert_eq!(cursor, 1);
}

#[test]
fn control_character_classification() {
    assert!(is_control_char('\u{0}'));
    assert!(is_control_char('\u{1f}'));
    assert!(!is_control_char(' '));
    assert!(!is_control_char('~'));
    assert!(is_control_char('\u{7f}'));
    assert!(is_control_char('\u{9f}'));
    assert!(!is_control_char('\u{a0}'));
    assert!(is_control_char(BACKSPACE));
    assert!(is_control_char(RETURN));
}

#[test]
fn backspace_steps_left_then_deletes() {
    let mut text: Vec<char> = vec!['a', 'b', 'c'];
    let mut cursor: usize = 2;
    apply_key(&mut text, &mut cursor, BACKSPACE);
    assert_eq!(text_of(&text), "ac");
    assert_eq!(cursor, 1);

    // At the start the cursor stays at zero and the character under it
    // is removed.
    let mut text: Vec<char> = vec!['x', 'y'];
    let mut cursor: usize = 0;
    apply_key(&mut text, &mut cursor, BACKSPACE);
    assert_eq!(text_of(&text), "y");
    assert_eq!(cursor, 0);
}

#[test]
fn delete_removes_under_the_cursor_and_return_is_ignored() {
    let mut text: Vec<char> = vec!['a', 'b'];
    let mut cursor: usize = 0;
    apply_key(&mut text, &mut cursor, DELETE);
    assert_eq!(text_of(&text), "b");
    assert_eq!(cursor, 0);

    apply_key(&mut text, &mut cursor, RETURN);
    assert_eq!(text_of(&text), "b");
    assert_eq!(cursor, 0);
}

#[test]
fn typing_a_batch_applies_in_order() {
    let mut text: Vec<char> = Vec::new();
    let mut cursor: usize = 0;
    let keys: Vec<char> = vec!['h', 'i', '!', BACKSPACE, '?'];
    apply_keys(&mut text, &mut cursor, &keys);
    assert_eq!(text_of(&text), "hi?");
    assert_eq!(cursor, 3);
}

#[test]
fn repeat_timer_fires_once_per_period() {
    let mut t = RepeatTimer::new(100);
    assert!(!t.tick(40));
    assert!(!t.tick(40));
    assert!(t.tick(40));
    // 20 ms carried over into the new period.
    assert!(!t.tick(70));
    assert!(t.tick(10));
}

#[test]
fn repeat_timer_reset_starts_the_period_over() {
    let mut t = RepeatTimer::new(100);
    assert!(!t.tick(90));
    t.reset();
    assert!(!t.tick(90));
    assert!(t.tick(10));
}

#[test]
fn repeat_timer_carries_large_deltas() {
    let mut t = RepeatTimer::new(100);
    assert!(t.tick(250));
    // 50 ms remain: the next firing needs only 50 more.
    assert!(!t.tick(40));
    assert!(t.tick(10));
}

#[test]
fn just_pressed_key_moves_at_once() {
    let text: Vec<char> = vec!['a', 'b', 'c'];
    let mut cursor: usize = 1;
    let mut timer = RepeatTimer::new(100);
    cursor_step(&text, &mut cursor, false, true, false, true, &mut timer, 16);
    assert_eq!(cursor, 2);
}

#[test]
fn held_key_moves_only_when_the_timer_fires() {
    let text: Vec<char> = vec!['a', 'b', 'c'];
    let mut cursor: usize = 2;
    let mut timer = RepeatTimer::new(100);
    // Held but neither just pressed nor fired: no movement.
    cursor_step(&text, &mut cursor, true, false, false, false, &mut timer, 60);
    assert_eq!(cursor, 2);
    // The next 60 ms cross the period: the movement repeats.
    cursor_step(&text, &mut cursor, true, false, false, false, &mut timer, 60);
    assert_eq!(cursor, 1);
}

#[test]
fn unheld_keys_never_move_the_cursor() {
    let text: Vec<char> = vec!['a', 'b'];
    let mut cursor: usize = 1;
    let mut timer = RepeatTimer::new(100);
    cursor_step(&text, &mut cursor, false, false, false, false, &mut timer, 500);
    assert_eq!(cursor, 1);
}

#[test]
fn a_full_tick_moves_then_types() {
    let mut text: Vec<char> = vec!['a', 'b'];
    let mut cursor = TextBox(2);
    let mut timer = RepeatTimer::new(100);
    let received: Vec<char> = vec!['x', 'y'];
    // Left arrow just pressed: the cursor steps to 1, then "xy" lands
    // before the 'b'.
    textbox_step(&mut text, &mut cursor, &received, true, false, true, false, &mut timer, 16);
    assert_eq!(text_of(&text), "axyb");
    assert_eq!(cursor.0, 3);
}

#[test]
fn focus_follows_clicks() {
    assert_eq!(focus_decision(&PointerState::Clicked, false), FocusAction::Grant);
    assert_eq!(focus_decision(&PointerState::Clicked, true), FocusAction::Keep);
    assert_eq!(focus_decision(&PointerState::Idle, true), FocusAction::Revoke);
    assert_eq!(focus_decision(&PointerState::Idle, false), FocusAction::Keep);
    assert_eq!(focus_decision(&PointerState::Hovered, true), FocusAction::Keep);
    assert_eq!(focus_decision(&PointerState::Hovered, false), FocusAction::Keep);
}
