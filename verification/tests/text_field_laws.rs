use ruffle_android::encoding::{chars_of, utf16_to_char_index};
use ruffle_android::text_input::{
    NativeTextControl, TextInputAction, TextInputSnapshot, TextInputStateMachine,
};

/// A text field that carries out actions one character at a time.
struct Field {
    text: Vec<char>,
    anchor: usize,
    cursor: usize,
    preedit: Option<(String, Option<(usize, usize)>)>,
}

impl Field {
    fn new() -> Self {
        Field { text: Vec::new(), anchor: 0, cursor: 0, preedit: None }
    }

    fn start(&self) -> usize {
        self.anchor.min(self.cursor)
    }

    fn end(&self) -> usize {
        self.anchor.max(self.cursor)
    }

    fn remove(&mut self, start: usize, end: usize) {
        self.text.drain(start..end);
        self.anchor = start;
        self.cursor = start;
    }

    fn press(&mut self, code: NativeTextControl) {
        let caret = self.anchor == self.cursor;
        match code {
            NativeTextControl::MoveLeft => {
                let p = if !caret { self.start() } else { self.cursor.saturating_sub(1) };
                self.anchor = p;
                self.cursor = p;
            }
            NativeTextControl::MoveRight => {
                let p = if !caret { self.end() } else { (self.cursor + 1).min(self.text.len()) };
                self.anchor = p;
                self.cursor = p;
            }
            NativeTextControl::SelectLeft => self.cursor = self.cursor.saturating_sub(1),
            NativeTextControl::SelectRight => {
                self.cursor = (self.cursor + 1).min(self.text.len())
            }
            NativeTextControl::Backspace => {
                if !caret {
                    self.remove(self.start(), self.end());
                } else if self.cursor > 0 {
                    self.remove(self.cursor - 1, self.cursor);
                }
            }
            NativeTextControl::Delete => {
                if !caret {
                    self.remove(self.start(), self.end());
                } else if self.cursor < self.text.len() {
                    let c = self.cursor;
                    self.text.remove(c);
                }
            }
        }
    }

    fn apply(&mut self, actions: &[TextInputAction]) {
        for action in actions {
            match action {
                TextInputAction::Preedit(text, cursor) => {
                    self.preedit = if text.is_empty() { None } else { Some((text.clone(), *cursor)) };
                }
                TextInputAction::Commit(text) => {
                    let start = self.start();
                    let end = self.end();
                    let inserted: Vec<char> = text.chars().collect();
                    let n = inserted.len();
                    self.text.splice(start..end, inserted);
                    self.anchor = start + n;
                    self.cursor = start + n;
                }
                TextInputAction::Control { code, repeat } => {
                    for _ in 0..*repeat {
                        self.press(*code);
                    }
                }
            }
        }
    }
}

/// The field that an ASCII snapshot describes: the text without the composed
/// span, the caret at the span when there is one, and the span as preedit.
fn expected(text: &str, selection: (usize, usize), composition: Option<(usize, usize)>) -> Field {
    let chars: Vec<char> = text.chars().collect();
    let clamp = |p: usize| p.min(chars.len());
    match composition.map(|(a, b)| (clamp(a.min(b)), clamp(a.max(b)))) {
        Some((start, end)) if start != end => {
            let mut committed = chars[..start].to_vec();
            committed.extend_from_slice(&chars[end..]);
            let composed: String = chars[start..end].iter().collect();
            let inside = |p: usize| clamp(p).clamp(start, end) - start;
            Field {
                text: committed,
                anchor: start,
                cursor: start,
                preedit: Some((composed, Some((inside(selection.0), inside(selection.1))))),
            }
        }
        _ => {
            let anchor = clamp(selection.0);
            let cursor = clamp(selection.1);
            Field { text: chars, anchor, cursor, preedit: None }
        }
    }
}

fn assert_runs_merged(actions: &[TextInputAction]) {
    for action in actions {
        if let TextInputAction::Control { repeat, .. } = action {
            assert!(*repeat > 0);
        }
    }
    for pair in actions.windows(2) {
        if let (
            TextInputAction::Control { code: a, .. },
            TextInputAction::Control { code: b, .. },
        ) = (&pair[0], &pair[1])
        {
            assert_ne!(a, b);
        }
    }
}

#[test]
fn actions_reproduce_every_snapshot_in_the_field() {
    let steps: Vec<(&str, (usize, usize), Option<(usize, usize)>)> = vec![
        ("hello", (5, 5), None),
        ("hello", (1, 4), None),
        ("hxo", (2, 2), None),
        ("hxo world", (9, 9), Some((4, 9))),
        ("hxo worlds", (10, 10), Some((4, 10))),
        ("hxo words", (9, 9), None),
        ("hxo words", (0, 9), None),
        ("", (0, 0), None),
        ("abc", (1, 1), Some((0, 2))),
        ("abcdef", (6, 3), None),
        ("adef", (1, 1), None),
        ("xyz adef", (2, 2), Some((0, 3))),
        ("xyz adef", (8, 8), None),
    ];
    let mut machine = TextInputStateMachine::default();
    let mut field = Field::new();
    for (text, selection, composition) in steps {
        let actions = machine.handle(TextInputSnapshot::from_utf16(
            text.to_string(),
            selection,
            composition,
        ));
        assert_runs_merged(&actions);
        field.apply(&actions);
        let want = expected(text, selection, composition);
        assert_eq!(field.text, want.text, "text after {text:?}");
        assert_eq!((field.anchor, field.cursor), (want.anchor, want.cursor), "selection after {text:?}");
        assert_eq!(field.preedit, want.preedit, "preedit after {text:?}");
    }
}

#[test]
fn handling_the_same_snapshot_again_only_repeats_the_preedit() {
    let mut machine = TextInputStateMachine::default();
    machine.handle(TextInputSnapshot::from_utf16("hello".to_string(), (2, 4), None));
    assert_eq!(
        machine.handle(TextInputSnapshot::from_utf16("hello".to_string(), (2, 4), None)),
        vec![]
    );

    machine.reset(TextInputSnapshot::from_utf16("ab".to_string(), (2, 2), Some((1, 2))));
    assert_eq!(
        machine.handle(TextInputSnapshot::from_utf16("ab".to_string(), (2, 2), Some((1, 2)))),
        vec![TextInputAction::Preedit("b".to_string(), Some((1, 1)))]
    );
}

#[test]
fn reset_emits_nothing_and_takes_the_snapshot_as_the_field() {
    let mut machine = TextInputStateMachine::default();
    machine.reset(TextInputSnapshot::from_utf16("abc".to_string(), (3, 3), None));
    assert_eq!(
        machine.handle(TextInputSnapshot::from_utf16("abcd".to_string(), (4, 4), None)),
        vec![TextInputAction::Commit("d".to_string())]
    );
}

#[test]
fn selection_moves_with_collapse_then_caret_then_extension() {
    let mut machine = TextInputStateMachine::default();
    machine.reset(TextInputSnapshot::from_utf16("abcdef".to_string(), (1, 3), None));
    assert_eq!(
        machine.handle(TextInputSnapshot::from_utf16("abcdef".to_string(), (5, 4), None)),
        vec![
            TextInputAction::Control { code: NativeTextControl::MoveLeft, repeat: 1 },
            TextInputAction::Control { code: NativeTextControl::MoveRight, repeat: 4 },
            TextInputAction::Control { code: NativeTextControl::SelectLeft, repeat: 1 },
        ]
    );
    assert_eq!(
        machine.handle(TextInputSnapshot::from_utf16("abcdef".to_string(), (4, 4), None)),
        vec![TextInputAction::Control { code: NativeTextControl::MoveLeft, repeat: 1 }]
    );
}

#[test]
fn removal_inside_a_selection_selects_it_then_presses_backspace() {
    let mut machine = TextInputStateMachine::default();
    machine.reset(TextInputSnapshot::from_utf16("abcdef".to_string(), (0, 0), None));
    assert_eq!(
        machine.handle(TextInputSnapshot::from_utf16("abef".to_string(), (2, 2), None)),
        vec![
            TextInputAction::Control { code: NativeTextControl::MoveRight, repeat: 2 },
            TextInputAction::Control { code: NativeTextControl::SelectRight, repeat: 2 },
            TextInputAction::Control { code: NativeTextControl::Backspace, repeat: 1 },
        ]
    );
}

#[test]
fn utf16_offsets_map_to_the_character_that_holds_them() {
    let chars = chars_of("a\u{1F980}b");
    assert_eq!(utf16_to_char_index(&chars, 0), 0);
    assert_eq!(utf16_to_char_index(&chars, 1), 1);
    assert_eq!(utf16_to_char_index(&chars, 2), 1);
    assert_eq!(utf16_to_char_index(&chars, 3), 2);
    assert_eq!(utf16_to_char_index(&chars, 4), 3);
    assert_eq!(utf16_to_char_index(&chars, 99), 3);
}

#[test]
fn preedit_cursor_counts_utf8_bytes_of_the_composition() {
    let mut machine = TextInputStateMachine::default();
    assert_eq!(
        machine.handle(TextInputSnapshot::from_utf16("xé\u{1F980}".to_string(), (2, 4), Some((1, 4)))),
        vec![
            TextInputAction::Commit("x".to_string()),
            TextInputAction::Preedit("é\u{1F980}".to_string(), Some((2, 6))),
        ]
    );
}

#[test]
fn moving_composition_clears_it_and_replays_the_committed_change() {
    let mut machine = TextInputStateMachine::default();
    machine.handle(TextInputSnapshot::from_utf16("ab".to_string(), (2, 2), Some((1, 2))));
    assert_eq!(
        machine.handle(TextInputSnapshot::from_utf16("ab".to_string(), (1, 1), Some((0, 1)))),
        vec![
            TextInputAction::Preedit(String::new(), None),
            TextInputAction::Control { code: NativeTextControl::Backspace, repeat: 1 },
            TextInputAction::Commit("b".to_string()),
            TextInputAction::Control { code: NativeTextControl::MoveLeft, repeat: 1 },
            TextInputAction::Preedit("a".to_string(), Some((1, 1))),
        ]
    );
}
