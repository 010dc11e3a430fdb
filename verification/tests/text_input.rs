use ruffle_android::text_input::{
    NativeTextControl, TextInputAction, TextInputSnapshot, TextInputStateMachine,
};

fn snapshot(
    text: &str,
    selection: (usize, usize),
    composition: Option<(usize, usize)>,
) -> TextInputSnapshot {
    TextInputSnapshot::from_utf16(text.to_string(), selection, composition)
}

fn control(code: NativeTextControl, repeat: usize) -> TextInputAction {
    TextInputAction::Control { code, repeat }
}

#[test]
fn commits_only_the_added_text_from_full_buffer_snapshots() {
    let mut state = TextInputStateMachine::default();

    assert_eq!(
        state.handle(snapshot("h", (1, 1), None)),
        vec![TextInputAction::Commit("h".to_string())]
    );
    assert_eq!(
        state.handle(snapshot("hello", (5, 5), None)),
        vec![TextInputAction::Commit("ello".to_string())]
    );
}

#[test]
fn updates_and_commits_composition() {
    let mut state = TextInputStateMachine::default();

    assert_eq!(
        state.handle(snapshot("n", (1, 1), Some((0, 1)))),
        vec![TextInputAction::Preedit("n".to_string(), Some((1, 1)))]
    );
    assert_eq!(
        state.handle(snapshot("に", (1, 1), Some((0, 1)))),
        vec![TextInputAction::Preedit("に".to_string(), Some((3, 3)))]
    );
    assert_eq!(
        state.handle(snapshot("に", (1, 1), None)),
        vec![
            TextInputAction::Preedit(String::new(), None),
            TextInputAction::Commit("に".to_string()),
        ]
    );
}

#[test]
fn clears_cancelled_composition_without_committing() {
    let mut state = TextInputStateMachine::default();
    state.handle(snapshot("draft", (5, 5), Some((0, 5))));

    assert_eq!(
        state.handle(snapshot("", (0, 0), None)),
        vec![TextInputAction::Preedit(String::new(), None)]
    );
}

#[test]
fn commits_completed_prefix_before_starting_next_composition() {
    let mut state = TextInputStateMachine::default();
    state.handle(snapshot("nihon", (5, 5), Some((0, 5))));

    assert_eq!(
        state.handle(snapshot("日本g", (3, 3), Some((2, 3)))),
        vec![
            TextInputAction::Preedit(String::new(), None),
            TextInputAction::Commit("日本".to_string()),
            TextInputAction::Preedit("g".to_string(), Some((1, 1))),
        ]
    );
}

#[test]
fn emits_backspace_for_text_removed_before_the_caret() {
    let mut state = TextInputStateMachine::default();
    state.handle(snapshot("hello", (5, 5), None));

    assert_eq!(
        state.handle(snapshot("hel", (3, 3), None)),
        vec![control(NativeTextControl::Backspace, 2)]
    );
}

#[test]
fn emits_delete_for_text_removed_after_the_caret() {
    let mut state = TextInputStateMachine::default();
    state.handle(snapshot("hello", (2, 2), None));

    assert_eq!(
        state.handle(snapshot("heo", (2, 2), None)),
        vec![control(NativeTextControl::Delete, 2)]
    );
}

#[test]
fn replaces_the_previous_selection() {
    let mut state = TextInputStateMachine::default();
    state.handle(snapshot("hello", (1, 4), None));

    assert_eq!(
        state.handle(snapshot("hio", (2, 2), None)),
        vec![
            control(NativeTextControl::Backspace, 1),
            TextInputAction::Commit("i".to_string()),
        ]
    );
}

#[test]
fn commits_native_paste_as_one_chunk() {
    let mut state = TextInputStateMachine::default();
    state.handle(snapshot("go", (2, 2), None));

    assert_eq!(
        state.handle(snapshot("go🦀 now", (8, 8), None)),
        vec![TextInputAction::Commit("🦀 now".to_string())]
    );
}

#[test]
fn converts_android_utf16_spans_to_utf8_preedit_offsets() {
    let mut state = TextInputStateMachine::default();
    state.handle(snapshot("ab", (1, 1), None));

    assert_eq!(
        state.handle(snapshot("a🦀b", (3, 3), Some((1, 3)))),
        vec![TextInputAction::Preedit("🦀".to_string(), Some((4, 4)))]
    );
}

#[test]
fn moves_and_extends_the_selection() {
    let mut state = TextInputStateMachine::default();
    state.handle(snapshot("hello", (5, 5), None));

    assert_eq!(
        state.handle(snapshot("hello", (3, 3), None)),
        vec![control(NativeTextControl::MoveLeft, 2)]
    );
    assert_eq!(
        state.handle(snapshot("hello", (3, 5), None)),
        vec![control(NativeTextControl::SelectRight, 2)]
    );
}

#[test]
fn resetting_a_guard_buffer_allows_repeated_backspace() {
    let mut state = TextInputStateMachine::default();
    let guard = "\u{200b}\u{2060}";

    for _ in 0..2 {
        state.reset(snapshot(guard, (1, 1), None));
        assert_eq!(
            state.handle(snapshot("\u{2060}", (0, 0), None)),
            vec![control(NativeTextControl::Backspace, 1)]
        );
    }
}

#[test]
fn guard_buffer_supports_forward_delete() {
    let mut state = TextInputStateMachine::default();
    state.reset(snapshot("\u{200b}\u{2060}", (1, 1), None));

    assert_eq!(
        state.handle(snapshot("\u{200b}", (1, 1), None)),
        vec![control(NativeTextControl::Delete, 1)]
    );
}

#[test]
fn guard_characters_are_not_committed_with_direct_input() {
    let mut state = TextInputStateMachine::default();
    state.reset(snapshot("\u{200b}\u{2060}", (1, 1), None));

    assert_eq!(
        state.handle(snapshot("\u{200b}paste\u{2060}", (6, 6), None)),
        vec![TextInputAction::Commit("paste".to_string())]
    );
}

#[test]
fn guard_characters_are_not_included_in_composition() {
    let mut state = TextInputStateMachine::default();
    state.reset(snapshot("\u{200b}\u{2060}", (1, 1), None));

    assert_eq!(
        state.handle(snapshot("\u{200b}に\u{2060}", (2, 2), Some((1, 2)))),
        vec![TextInputAction::Preedit("に".to_string(), Some((3, 3)))]
    );
}

#[test]
fn safely_clamps_reversed_and_out_of_bounds_composition_spans() {
    let mut state = TextInputStateMachine::default();

    assert_eq!(
        state.handle(snapshot("abc", (99, 99), Some((99, 1)))),
        vec![
            TextInputAction::Commit("a".to_string()),
            TextInputAction::Preedit("bc".to_string(), Some((2, 2))),
        ]
    );
}
