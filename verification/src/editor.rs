//! What the actions of [`crate::text_input`] do to a text field, and the laws
//! that tie the state machine to it.
//!
//! A text field holds committed text, a selection in it, and an optional
//! preedit (text under composition, drawn at the caret but not part of the
//! committed text). Key presses act one character at a time: Left and Right
//! collapse a selection to its start or end, and otherwise move the caret; the
//! select keys move the cursor and keep the anchor; Backspace and Delete remove
//! the selection, or else the character before or after the caret. A commit
//! replaces the selection with its text and puts the caret after it; a preedit
//! with text shows it, an empty one clears it.

use vstd::prelude::*;
use crate::text_input::{
    CommittedView, lemma_common_prefix, lemma_common_suffix, common_prefix_len_spec,
    common_suffix_len_spec, ActionView, EditView, MachineView, NativeTextControl, SnapshotView, TextRange, apply_edit_spec,
    clamp_position, clears_composition, composition_insertion, directional_navigation_spec,
    distance, edit_stage, find_edit_spec, finish_stage, handle_spec, last_repeat, lemma_find_edit,
    lemma_parse_snapshot_wf, machine_after, navigation_spec, parse_snapshot, push_control_spec,
};
use crate::encoding::{lemma_utf8_len_concat, utf8_len};

verus! {

/// The state of a text field.
pub struct FieldView {
    pub text: Seq<char>,
    pub selection: TextRange,
    pub preedit: Option<(Seq<char>, Option<(nat, nat)>)>,
}

impl FieldView {
    pub open spec fn with_selection(self, selection: TextRange) -> FieldView {
        FieldView { text: self.text, selection, preedit: self.preedit }
    }

    pub open spec fn with_text(self, text: Seq<char>, selection: TextRange) -> FieldView {
        FieldView { text, selection, preedit: self.preedit }
    }
}

/// `text` without `text[start..end]`.
pub open spec fn remove_range(text: Seq<char>, start: int, end: int) -> Seq<char> {
    text.take(start) + text.skip(end)
}

/// One press of `code`.
pub open spec fn press(field: FieldView, code: NativeTextControl) -> FieldView {
    let selection = field.selection;
    let caret = selection.spec_is_caret();
    let cursor = selection.cursor;
    let len = field.text.len();
    match code {
        NativeTextControl::MoveLeft => if !caret {
            field.with_selection(TextRange::spec_caret(selection.spec_start()))
        } else if cursor > 0 {
            field.with_selection(TextRange::spec_caret((cursor - 1) as usize))
        } else {
            field
        },
        NativeTextControl::MoveRight => if !caret {
            field.with_selection(TextRange::spec_caret(selection.spec_end()))
        } else if cursor < len {
            field.with_selection(TextRange::spec_caret((cursor + 1) as usize))
        } else {
            field
        },
        NativeTextControl::SelectLeft => if cursor > 0 {
            field.with_selection(TextRange::spec_new(selection.anchor, (cursor - 1) as usize))
        } else {
            field
        },
        NativeTextControl::SelectRight => if cursor < len {
            field.with_selection(TextRange::spec_new(selection.anchor, (cursor + 1) as usize))
        } else {
            field
        },
        NativeTextControl::Backspace => if !caret {
            field.with_text(
                remove_range(
                    field.text,
                    selection.spec_start() as int,
                    selection.spec_end() as int,
                ),
                TextRange::spec_caret(selection.spec_start()),
            )
        } else if cursor > 0 {
            field.with_text(
                remove_range(field.text, cursor - 1, cursor as int),
                TextRange::spec_caret((cursor - 1) as usize),
            )
        } else {
            field
        },
        NativeTextControl::Delete => if !caret {
            field.with_text(
                remove_range(
                    field.text,
                    selection.spec_start() as int,
                    selection.spec_end() as int,
                ),
                TextRange::spec_caret(selection.spec_start()),
            )
        } else if cursor < len {
            field.with_text(remove_range(field.text, cursor as int, cursor + 1), selection)
        } else {
            field
        },
    }
}

/// `n` presses of `code`.
pub open spec fn press_n(field: FieldView, code: NativeTextControl, n: nat) -> FieldView
    decreases n,
{
    if n == 0 {
        field
    } else {
        press(press_n(field, code, (n - 1) as nat), code)
    }
}

/// What one action does to a text field.
pub open spec fn apply_action(field: FieldView, action: ActionView) -> FieldView {
    match action {
        ActionView::Preedit(text, cursor) => FieldView {
            text: field.text,
            selection: field.selection,
            preedit: if text.len() == 0 {
                None
            } else {
                Some((text, cursor))
            },
        },
        ActionView::Commit(text) => {
            let start = field.selection.spec_start();
            field.with_text(
                field.text.take(start as int) + text + field.text.skip(
                    field.selection.spec_end() as int,
                ),
                TextRange::spec_caret((start + text.len()) as usize),
            )
        },
        ActionView::Control { code, repeat } => press_n(field, code, repeat),
    }
}

/// What a list of actions does to a text field, in order.
pub open spec fn apply_actions(field: FieldView, actions: Seq<ActionView>) -> FieldView
    decreases actions.len(),
{
    if actions.len() == 0 {
        field
    } else {
        apply_action(apply_actions(field, actions.drop_last()), actions.last())
    }
}

/// The text field as the state machine `machine` believes it to be, showing
/// `preedit`: the committed text, and the caret at the composition when there
/// is one, else the remembered selection.
pub open spec fn field_before(
    machine: MachineView,
    preedit: Option<(Seq<char>, Option<(nat, nat)>)>,
) -> FieldView {
    FieldView {
        text: machine.committed.text,
        selection: match machine.composition_start {
            Some(p) => TextRange::spec_caret(p),
            None => machine.committed.selection,
        },
        preedit,
    }
}

/// The text field that `snapshot` describes: its committed text, the caret at
/// the composition (shown as preedit) when there is one, else its selection.
pub open spec fn field_of(snapshot: SnapshotView) -> FieldView {
    let parsed = parse_snapshot(snapshot);
    FieldView {
        text: parsed.committed.text,
        selection: match parsed.composition {
            Some(c) => TextRange::spec_caret(c.insertion),
            None => parsed.committed.selection,
        },
        preedit: match parsed.composition {
            Some(c) => Some((c.text, Some(c.cursor))),
            None => None,
        },
    }
}

proof fn lemma_press_once(field: FieldView, code: NativeTextControl)
    ensures
        press_n(field, code, 1) == press(field, code),
{
    assert(press_n(field, code, 0) == field);
}

proof fn lemma_apply_actions_push(field: FieldView, actions: Seq<ActionView>, action: ActionView)
    ensures
        apply_actions(field, actions.push(action)) == apply_action(
            apply_actions(field, actions),
            action,
        ),
{
    assert(actions.push(action).drop_last() =~= actions);
    assert(apply_actions(field, Seq::<ActionView>::empty()) == field);
}

proof fn lemma_press_n_add(field: FieldView, code: NativeTextControl, a: nat, b: nat)
    ensures
        press_n(field, code, a + b) == press_n(press_n(field, code, a), code, b),
    decreases b,
{
    if b > 0 {
        lemma_press_n_add(field, code, a, (b - 1) as nat);
    }
}

/// Lemma: merging presses into a trailing run of the same key does what
/// pressing them after the list does.
pub proof fn lemma_push_control_applies(
    field: FieldView,
    actions: Seq<ActionView>,
    code: NativeTextControl,
    n: nat,
)
    ensures
        apply_actions(field, push_control_spec(actions, code, n)) == press_n(
            apply_actions(field, actions),
            code,
            n,
        ),
{
    if n > 0 {
        if actions.len() > 0 && (actions.last() matches ActionView::Control {
            code: last_code,
            ..
        } && last_code == code) {
            let merged = push_control_spec(actions, code, n);
            assert(merged.drop_last() =~= actions.drop_last());
            lemma_press_n_add(apply_actions(field, actions.drop_last()), code, last_repeat(actions), n);
        } else {
            lemma_apply_actions_push(field, actions, ActionView::Control { code, repeat: n });
        }
    }
}

proof fn lemma_move_left_n(field: FieldView, n: nat)
    requires
        field.selection.spec_is_caret(),
        n <= field.selection.cursor,
    ensures
        press_n(field, NativeTextControl::MoveLeft, n) == field.with_selection(
            TextRange::spec_caret((field.selection.cursor - n) as usize),
        ),
    decreases n,
{
    if n > 0 {
        lemma_move_left_n(field, (n - 1) as nat);
    }
}

proof fn lemma_move_right_n(field: FieldView, n: nat)
    requires
        field.selection.spec_is_caret(),
        field.selection.cursor + n <= field.text.len(),
        field.selection.cursor + n <= usize::MAX,
    ensures
        press_n(field, NativeTextControl::MoveRight, n) == field.with_selection(
            TextRange::spec_caret((field.selection.cursor + n) as usize),
        ),
    decreases n,
{
    if n > 0 {
        lemma_move_right_n(field, (n - 1) as nat);
    }
}

proof fn lemma_select_left_n(field: FieldView, n: nat)
    requires
        n <= field.selection.cursor,
    ensures
        press_n(field, NativeTextControl::SelectLeft, n) == field.with_selection(
            TextRange::spec_new(field.selection.anchor, (field.selection.cursor - n) as usize),
        ),
    decreases n,
{
    if n > 0 {
        lemma_select_left_n(field, (n - 1) as nat);
    }
}

proof fn lemma_select_right_n(field: FieldView, n: nat)
    requires
        field.selection.cursor + n <= field.text.len(),
        field.selection.cursor + n <= usize::MAX,
    ensures
        press_n(field, NativeTextControl::SelectRight, n) == field.with_selection(
            TextRange::spec_new(field.selection.anchor, (field.selection.cursor + n) as usize),
        ),
    decreases n,
{
    if n > 0 {
        lemma_select_right_n(field, (n - 1) as nat);
    }
}

proof fn lemma_backspace_n(field: FieldView, n: nat)
    requires
        field.selection.spec_is_caret(),
        n <= field.selection.cursor <= field.text.len(),
    ensures
        press_n(field, NativeTextControl::Backspace, n) == field.with_text(
            remove_range(field.text, field.selection.cursor - n, field.selection.cursor as int),
            TextRange::spec_caret((field.selection.cursor - n) as usize),
        ),
    decreases n,
{
    if n == 0 {
        assert(remove_range(field.text, field.selection.cursor as int, field.selection.cursor as int)
            =~= field.text);
    } else {
        lemma_backspace_n(field, (n - 1) as nat);
        let c = field.selection.cursor as int;
        let t = remove_range(field.text, c - (n - 1), c);
        assert(remove_range(t, c - n, c - n + 1) =~= remove_range(field.text, c - n, c));
    }
}

proof fn lemma_delete_n(field: FieldView, n: nat)
    requires
        field.selection.spec_is_caret(),
        field.selection.cursor + n <= field.text.len(),
    ensures
        press_n(field, NativeTextControl::Delete, n) == field.with_text(
            remove_range(
                field.text,
                field.selection.cursor as int,
                field.selection.cursor + n,
            ),
            field.selection,
        ),
    decreases n,
{
    if n == 0 {
        assert(remove_range(field.text, field.selection.cursor as int, field.selection.cursor as int)
            =~= field.text);
    } else {
        lemma_delete_n(field, (n - 1) as nat);
        let c = field.selection.cursor as int;
        let t = remove_range(field.text, c, c + (n - 1));
        assert(remove_range(t, c, c + 1) =~= remove_range(field.text, c, c + n));
    }
}

/// Lemma: directional navigation takes the caret (or, with `select`, the
/// cursor) from `from` to `to`.
proof fn lemma_directional_applies(
    field: FieldView,
    actions: Seq<ActionView>,
    from: usize,
    to: usize,
    select: bool,
)
    requires
        apply_actions(field, actions).selection.cursor == from,
        select || apply_actions(field, actions).selection.spec_is_caret(),
        to <= apply_actions(field, actions).text.len(),
    ensures
        apply_actions(field, directional_navigation_spec(actions, from, to, select))
            == apply_actions(field, actions).with_selection(
            if select {
                TextRange::spec_new(apply_actions(field, actions).selection.anchor, to)
            } else {
                TextRange::spec_caret(to)
            },
        ),
{
    let current = apply_actions(field, actions);
    if from == to {
        if select {
            assert(current.selection == TextRange::spec_new(current.selection.anchor, to));
        }
    } else if from > to {
        let n = (from - to) as nat;
        if select {
            lemma_push_control_applies(field, actions, NativeTextControl::SelectLeft, n);
            lemma_select_left_n(current, n);
        } else {
            lemma_push_control_applies(field, actions, NativeTextControl::MoveLeft, n);
            lemma_move_left_n(current, n);
        }
    } else {
        let n = (to - from) as nat;
        if select {
            lemma_push_control_applies(field, actions, NativeTextControl::SelectRight, n);
            lemma_select_right_n(current, n);
        } else {
            lemma_push_control_applies(field, actions, NativeTextControl::MoveRight, n);
            lemma_move_right_n(current, n);
        }
    }
}

/// Lemma: navigation turns selection `from` into selection `to`, and changes
/// nothing else.
pub proof fn lemma_navigation_applies(
    field: FieldView,
    actions: Seq<ActionView>,
    from: TextRange,
    to: TextRange,
)
    requires
        apply_actions(field, actions).selection == from,
        from.within(apply_actions(field, actions).text.len()),
        to.within(apply_actions(field, actions).text.len()),
    ensures
        apply_actions(field, navigation_spec(actions, from, to)) == apply_actions(
            field,
            actions,
        ).with_selection(to),
{
    let current = apply_actions(field, actions);
    if from == to {
        assert(current.with_selection(to) == current);
    } else if !from.spec_is_caret() && to.spec_is_caret() && to.cursor == from.spec_start() {
        lemma_push_control_applies(field, actions, NativeTextControl::MoveLeft, 1);
        lemma_press_once(current, NativeTextControl::MoveLeft);
    } else if !from.spec_is_caret() && to.spec_is_caret() && to.cursor == from.spec_end() {
        lemma_push_control_applies(field, actions, NativeTextControl::MoveRight, 1);
        lemma_press_once(current, NativeTextControl::MoveRight);
    } else {
        let collapsed = if !from.spec_is_caret() {
            push_control_spec(actions, NativeTextControl::MoveLeft, 1)
        } else {
            actions
        };
        let position = if !from.spec_is_caret() {
            from.spec_start()
        } else {
            from.cursor
        };
        lemma_push_control_applies(field, actions, NativeTextControl::MoveLeft, 1);
        lemma_press_once(current, NativeTextControl::MoveLeft);
        assert(apply_actions(field, collapsed) == current.with_selection(
            TextRange::spec_caret(position),
        ));
        lemma_directional_applies(field, collapsed, position, to.anchor, false);
        let moved = directional_navigation_spec(collapsed, position, to.anchor, false);
        lemma_directional_applies(field, moved, to.anchor, to.cursor, true);
    }
}

/// Lemma: the actions of `apply_edit_spec` turn a field showing `previous`,
/// with selection `selection`, into one showing `current`, when the edit
/// describes the change from one to the other; the selection afterwards is the
/// one that `apply_edit_spec` reports.
pub proof fn lemma_apply_edit_applies(
    field: FieldView,
    actions: Seq<ActionView>,
    selection: TextRange,
    edit: EditView,
    current: Seq<char>,
)
    requires
        apply_actions(field, actions).selection == selection,
        selection.within(apply_actions(field, actions).text.len()),
        edit.removed.anchor <= edit.removed.cursor <= apply_actions(field, actions).text.len(),
        apply_actions(field, actions).text.take(edit.removed.anchor as int) + edit.inserted
            + apply_actions(field, actions).text.skip(edit.removed.cursor as int) == current,
    ensures
        apply_actions(field, apply_edit_spec(actions, selection, edit).0) == apply_actions(
            field,
            actions,
        ).with_text(current, apply_edit_spec(actions, selection, edit).1),
        apply_edit_spec(actions, selection, edit).1.within(current.len()),
{
    let before = apply_actions(field, actions);
    let previous = before.text;
    let start = edit.removed.spec_start();
    let end = edit.removed.spec_end();
    let n = (end - start) as nat;
    let removed_text = remove_range(previous, start as int, end as int);
    let removed_field = before.with_text(removed_text, TextRange::spec_caret(start));
    // The removal step.
    let (removed_actions, removed_selection) = if !edit.removed.spec_is_caret() {
        let pressed = if selection.spec_ordered() == edit.removed && !selection.spec_is_caret() {
            push_control_spec(actions, NativeTextControl::Backspace, 1)
        } else if selection.spec_is_caret() && selection.cursor == end {
            push_control_spec(actions, NativeTextControl::Backspace, n)
        } else if selection.spec_is_caret() && selection.cursor == start {
            push_control_spec(actions, NativeTextControl::Delete, n)
        } else {
            push_control_spec(
                navigation_spec(actions, selection, edit.removed),
                NativeTextControl::Backspace,
                1,
            )
        };
        (pressed, TextRange::spec_caret(start))
    } else if selection != TextRange::spec_caret(start) {
        (navigation_spec(actions, selection, TextRange::spec_caret(start)), TextRange::spec_caret(start))
    } else {
        (actions, selection)
    };
    if !edit.removed.spec_is_caret() {
        if selection.spec_ordered() == edit.removed && !selection.spec_is_caret() {
            lemma_push_control_applies(field, actions, NativeTextControl::Backspace, 1);
            lemma_press_once(before, NativeTextControl::Backspace);
        } else if selection.spec_is_caret() && selection.cursor == end {
            lemma_push_control_applies(field, actions, NativeTextControl::Backspace, n);
            lemma_backspace_n(before, n);
        } else if selection.spec_is_caret() && selection.cursor == start {
            lemma_push_control_applies(field, actions, NativeTextControl::Delete, n);
            lemma_delete_n(before, n);
        } else {
            lemma_navigation_applies(field, actions, selection, edit.removed);
            lemma_push_control_applies(
                field,
                navigation_spec(actions, selection, edit.removed),
                NativeTextControl::Backspace,
                1,
            );
            lemma_press_once(
                apply_actions(field, navigation_spec(actions, selection, edit.removed)),
                NativeTextControl::Backspace,
            );
        }
        assert(apply_actions(field, removed_actions) == removed_field);
    } else if selection != TextRange::spec_caret(start) {
        lemma_navigation_applies(field, actions, selection, TextRange::spec_caret(start));
        assert(removed_text =~= previous);
        assert(apply_actions(field, removed_actions) == removed_field);
    } else {
        assert(removed_text =~= previous);
        assert(apply_actions(field, removed_actions) == removed_field);
    }
    assert(removed_selection == TextRange::spec_caret(start));
    if edit.inserted.len() > 0 {
        lemma_apply_actions_push(field, removed_actions, ActionView::Commit(edit.inserted));
        assert(removed_text.take(start as int) + edit.inserted + removed_text.skip(start as int)
            =~= current);
    } else {
        assert(removed_text =~= current);
    }
}

/// Law: the actions that `handle` emits take the text field from the state
/// that the state machine remembers to the state that the new snapshot
/// describes: its committed text, its selection, and its composition as
/// preedit. The field starts out showing some preedit exactly when the state
/// machine remembers a composition.
pub proof fn law_handle_reproduces_snapshot(
    machine: MachineView,
    snapshot: SnapshotView,
    preedit: Option<(Seq<char>, Option<(nat, nat)>)>,
)
    requires
        machine.wf(),
        snapshot.wf(),
        preedit is Some <==> machine.composition_start is Some,
    ensures
        apply_actions(field_before(machine, preedit), handle_spec(machine, snapshot)) == field_of(
            snapshot,
        ),
{
    let field = field_before(machine, preedit);
    let parsed = parse_snapshot(snapshot);
    lemma_parse_snapshot_wf(snapshot);
    lemma_find_edit(machine.committed, parsed.committed);
    let edit = find_edit_spec(machine.committed, parsed.committed);
    let current_start = composition_insertion(parsed.composition);
    let clear = clears_composition(machine.composition_start, edit is Some, current_start);
    let cleared: Seq<ActionView> = if clear {
        seq![ActionView::Preedit(Seq::empty(), None)]
    } else {
        Seq::empty()
    };
    let selection = if clear {
        TextRange::spec_caret(
            match machine.composition_start {
                Some(p) => p,
                None => 0,
            },
        )
    } else {
        machine.committed.selection
    };
    // After clearing: the preedit is gone exactly when it was cleared.
    let after_clear = if clear {
        FieldView { text: field.text, selection: field.selection, preedit: None }
    } else {
        field
    };
    if clear {
        assert(cleared =~= Seq::<ActionView>::empty().push(ActionView::Preedit(Seq::empty(), None)));
        lemma_apply_actions_push(
            field,
            Seq::<ActionView>::empty(),
            ActionView::Preedit(Seq::empty(), None),
        );
    } else {
        assert(cleared =~= Seq::<ActionView>::empty());
    }
    assert(apply_actions(field, cleared) == after_clear);
    let (edited, edited_selection) = edit_stage(machine, clear, edit);
    let navigate = clear || machine.composition_start is None;
    // When the field's selection is the one the stages track.
    if navigate {
        assert(after_clear.selection == selection);
    }
    match edit {
        Some(e) => {
            assert(navigate);
            lemma_apply_edit_applies(field, cleared, selection, e, parsed.committed.text);
            assert(apply_actions(field, edited) == after_clear.with_text(
                parsed.committed.text,
                edited_selection,
            ));
        },
        None => {
            assert(edited == cleared);
            assert(machine.committed.text == parsed.committed.text);
        },
    }
    let edited_field = apply_actions(field, edited);
    assert(edited_field.text == parsed.committed.text);
    assert(navigate ==> edited_field.selection == edited_selection);
    assert(navigate ==> edited_selection.within(parsed.committed.text.len()));
    match parsed.composition {
        Some(c) => {
            let moved = if navigate {
                navigation_spec(edited, edited_selection, TextRange::spec_caret(c.insertion))
            } else {
                edited
            };
            if navigate {
                lemma_navigation_applies(
                    field,
                    edited,
                    edited_selection,
                    TextRange::spec_caret(c.insertion),
                );
            } else {
                assert(machine.composition_start == Some(c.insertion));
            }
            lemma_apply_actions_push(
                field,
                moved,
                ActionView::Preedit(c.text, Some(c.cursor)),
            );
            assert(apply_actions(field, finish_stage(
                edited,
                edited_selection,
                parsed.composition,
                parsed.committed.selection,
                navigate,
            )) == field_of(snapshot));
        },
        None => {
            assert(navigate);
            lemma_navigation_applies(field, edited, edited_selection, parsed.committed.selection);
        },
    }
}

/// Law: handling the snapshot that the state machine has just seen again
/// emits nothing, apart from showing the composition again when there is one.
pub proof fn law_handle_same_snapshot_again(snapshot: SnapshotView)
    requires
        snapshot.wf(),
    ensures
        handle_spec(machine_after(snapshot), snapshot) == match parse_snapshot(
            snapshot,
        ).composition {
            Some(c) => seq![ActionView::Preedit(c.text, Some(c.cursor))],
            None => Seq::<ActionView>::empty(),
        },
{
    let parsed = parse_snapshot(snapshot);
    lemma_parse_snapshot_wf(snapshot);
    lemma_find_edit(parsed.committed, parsed.committed);
    match parsed.composition {
        Some(c) => {
            assert(Seq::<ActionView>::empty().push(ActionView::Preedit(c.text, Some(c.cursor)))
                =~= seq![ActionView::Preedit(c.text, Some(c.cursor))]);
        },
        None => {},
    }
}

/// Whether two neighbouring actions are not presses of one key (which would
/// have been merged into one).
pub open spec fn separate_runs(first: ActionView, second: ActionView) -> bool {
    !(first matches ActionView::Control { code: a, .. } && second matches ActionView::Control {
        code: b,
        ..
    } && a == b)
}

/// Whether an action is not an empty run of presses.
pub open spec fn non_empty_run(action: ActionView) -> bool {
    action matches ActionView::Control { repeat, .. } ==> repeat > 0
}

/// A list of actions in which every run of presses presses at least once, and
/// no two neighbouring runs press the same key.
pub open spec fn runs_merged(actions: Seq<ActionView>) -> bool {
    &&& forall|i: int| 0 <= i < actions.len() ==> non_empty_run(#[trigger] actions[i])
    &&& forall|i: int, j: int|
        0 <= i && j == i + 1 && j < actions.len() ==> separate_runs(
            #[trigger] actions[i],
            #[trigger] actions[j],
        )
}

proof fn lemma_push_keeps_runs_merged(actions: Seq<ActionView>, action: ActionView)
    requires
        runs_merged(actions),
        non_empty_run(action),
        actions.len() > 0 ==> separate_runs(actions.last(), action),
    ensures
        runs_merged(actions.push(action)),
{
    let pushed = actions.push(action);
    assert forall|i: int, j: int| 0 <= i && j == i + 1 && j < pushed.len() implies separate_runs(
        #[trigger] pushed[i],
        #[trigger] pushed[j],
    ) by {
        if j < actions.len() {
            assert(pushed[i] == actions[i] && pushed[j] == actions[j]);
        }
    }
}

proof fn lemma_push_control_runs_merged(actions: Seq<ActionView>, code: NativeTextControl, n: nat)
    requires
        runs_merged(actions),
    ensures
        runs_merged(push_control_spec(actions, code, n)),
{
    if n > 0 {
        if actions.len() > 0 && (actions.last() matches ActionView::Control {
            code: last_code,
            ..
        } && last_code == code) {
            let last = actions.len() - 1;
            let merged = push_control_spec(actions, code, n);
            assert forall|i: int, j: int|
                0 <= i && j == i + 1 && j < merged.len() implies separate_runs(
                #[trigger] merged[i],
                #[trigger] merged[j],
            ) by {
                assert(separate_runs(actions[i], actions[j]));
            }
            assert forall|i: int| 0 <= i < merged.len() implies non_empty_run(
                #[trigger] merged[i],
            ) by {
                if i < last {
                    assert(non_empty_run(actions[i]));
                }
            }
        } else {
            lemma_push_keeps_runs_merged(actions, ActionView::Control { code, repeat: n });
        }
    }
}

proof fn lemma_navigation_runs_merged(actions: Seq<ActionView>, from: TextRange, to: TextRange)
    requires
        runs_merged(actions),
    ensures
        runs_merged(navigation_spec(actions, from, to)),
{
    lemma_push_control_runs_merged(actions, NativeTextControl::MoveLeft, 1);
    lemma_push_control_runs_merged(actions, NativeTextControl::MoveRight, 1);
    let collapsed = if !from.spec_is_caret() {
        push_control_spec(actions, NativeTextControl::MoveLeft, 1)
    } else {
        actions
    };
    let position = if !from.spec_is_caret() {
        from.spec_start()
    } else {
        from.cursor
    };
    lemma_directional_runs_merged(collapsed, position, to.anchor, false);
    lemma_directional_runs_merged(
        directional_navigation_spec(collapsed, position, to.anchor, false),
        to.anchor,
        to.cursor,
        true,
    );
}

proof fn lemma_directional_runs_merged(actions: Seq<ActionView>, from: usize, to: usize, select: bool)
    requires
        runs_merged(actions),
    ensures
        runs_merged(directional_navigation_spec(actions, from, to, select)),
{
    lemma_push_control_runs_merged(actions, NativeTextControl::MoveLeft, distance(from, to));
    lemma_push_control_runs_merged(actions, NativeTextControl::MoveRight, distance(from, to));
    lemma_push_control_runs_merged(actions, NativeTextControl::SelectLeft, distance(from, to));
    lemma_push_control_runs_merged(actions, NativeTextControl::SelectRight, distance(from, to));
}

/// Law: `handle` never emits an empty run of presses, and never emits two
/// neighbouring runs of the same key: presses of one key come out merged.
pub proof fn law_handle_runs_merged(machine: MachineView, snapshot: SnapshotView)
    ensures
        runs_merged(handle_spec(machine, snapshot)),
{
    let parsed = parse_snapshot(snapshot);
    let edit = find_edit_spec(machine.committed, parsed.committed);
    let clear = clears_composition(
        machine.composition_start,
        edit is Some,
        composition_insertion(parsed.composition),
    );
    let cleared: Seq<ActionView> = if clear {
        seq![ActionView::Preedit(Seq::empty(), None)]
    } else {
        Seq::empty()
    };
    let selection = if clear {
        TextRange::spec_caret(
            match machine.composition_start {
                Some(p) => p,
                None => 0,
            },
        )
    } else {
        machine.committed.selection
    };
    assert(runs_merged(cleared)) by {
        if clear {
            assert(cleared =~= Seq::<ActionView>::empty().push(
                ActionView::Preedit(Seq::empty(), None),
            ));
            lemma_push_keeps_runs_merged(
                Seq::<ActionView>::empty(),
                ActionView::Preedit(Seq::empty(), None),
            );
        }
    }
    if let Some(e) = edit {
        lemma_apply_edit_runs_merged(cleared, selection, e);
    }
    let (edited, edited_selection) = edit_stage(machine, clear, edit);
    let navigate = clear || machine.composition_start is None;
    match parsed.composition {
        Some(c) => {
            lemma_navigation_runs_merged(edited, edited_selection, TextRange::spec_caret(c.insertion));
            let moved = if navigate {
                navigation_spec(edited, edited_selection, TextRange::spec_caret(c.insertion))
            } else {
                edited
            };
            lemma_push_keeps_runs_merged(moved, ActionView::Preedit(c.text, Some(c.cursor)));
        },
        None => {
            lemma_navigation_runs_merged(edited, edited_selection, parsed.committed.selection);
        },
    }
}

proof fn lemma_apply_edit_runs_merged(
    actions: Seq<ActionView>,
    selection: TextRange,
    edit: EditView,
)
    requires
        runs_merged(actions),
    ensures
        runs_merged(apply_edit_spec(actions, selection, edit).0),
{
    let start = edit.removed.spec_start();
    let end = edit.removed.spec_end();
    let n = (end - start) as nat;
    lemma_push_control_runs_merged(actions, NativeTextControl::Backspace, 1);
    lemma_push_control_runs_merged(actions, NativeTextControl::Backspace, n);
    lemma_push_control_runs_merged(actions, NativeTextControl::Delete, n);
    lemma_navigation_runs_merged(actions, selection, edit.removed);
    lemma_push_control_runs_merged(
        navigation_spec(actions, selection, edit.removed),
        NativeTextControl::Backspace,
        1,
    );
    lemma_navigation_runs_merged(actions, selection, TextRange::spec_caret(start));
    let (removed_actions, removed_selection) = if !edit.removed.spec_is_caret() {
        let pressed = if selection.spec_ordered() == edit.removed && !selection.spec_is_caret() {
            push_control_spec(actions, NativeTextControl::Backspace, 1)
        } else if selection.spec_is_caret() && selection.cursor == end {
            push_control_spec(actions, NativeTextControl::Backspace, n)
        } else if selection.spec_is_caret() && selection.cursor == start {
            push_control_spec(actions, NativeTextControl::Delete, n)
        } else {
            push_control_spec(
                navigation_spec(actions, selection, edit.removed),
                NativeTextControl::Backspace,
                1,
            )
        };
        (pressed, TextRange::spec_caret(start))
    } else if selection != TextRange::spec_caret(start) {
        (navigation_spec(actions, selection, TextRange::spec_caret(start)), TextRange::spec_caret(start))
    } else {
        (actions, selection)
    };
    if edit.inserted.len() > 0 {
        lemma_push_keeps_runs_merged(removed_actions, ActionView::Commit(edit.inserted));
    }
}

/// Law: the preedit cursor that a snapshot yields lies within the UTF-8
/// encoding of the composed text, and the composed text is the snapshot's
/// span, never empty.
pub proof fn law_preedit_cursor_within_composition(snapshot: SnapshotView)
    requires
        snapshot.wf(),
    ensures
        parse_snapshot(snapshot).composition matches Some(c) ==> {
            &&& c.text.len() > 0
            &&& c.cursor.0 <= utf8_len(c.text)
            &&& c.cursor.1 <= utf8_len(c.text)
        },
{
    if let Some(c) = parse_snapshot(snapshot).composition {
        let span = snapshot.composition->0;
        let start = span.spec_start();
        let end = span.spec_end();
        let anchor = clamp_position(snapshot.selection.anchor, start, end) - start;
        let cursor = clamp_position(snapshot.selection.cursor, start, end) - start;
        lemma_utf8_len_concat(c.text.take(anchor), c.text.skip(anchor));
        assert(c.text.take(anchor) + c.text.skip(anchor) =~= c.text);
        lemma_utf8_len_concat(c.text.take(cursor), c.text.skip(cursor));
        assert(c.text.take(cursor) + c.text.skip(cursor) =~= c.text);
    }
}

/// Law: when the previous selection is not a caret and the new committed text
/// keeps everything before and after it, the edit is the replacement of exactly
/// that selection by the text that now stands between the kept parts.
pub proof fn law_find_edit_replaces_selection(
    previous: CommittedView,
    current: CommittedView,
    inserted: Seq<char>,
)
    requires
        previous.wf(),
        !previous.selection.spec_is_caret(),
        current.text == previous.text.take(previous.selection.spec_start() as int) + inserted
            + previous.text.skip(previous.selection.spec_end() as int),
        current.text != previous.text,
    ensures
        find_edit_spec(previous, current) == Some(
            EditView {
                removed: TextRange {
                    anchor: previous.selection.spec_start(),
                    cursor: previous.selection.spec_end(),
                },
                inserted,
            },
        ),
{
    let p = previous.text;
    let c = current.text;
    let start = previous.selection.spec_start() as int;
    let end = previous.selection.spec_end() as int;
    assert(p.take(start).is_prefix_of(c)) by {
        assert(c.subrange(0, start) =~= p.take(start));
    }
    assert(p.skip(end).is_suffix_of(c)) by {
        assert(c.subrange(c.len() - (p.len() - end), c.len() as int) =~= p.skip(end));
    }
    assert(c.subrange(start, c.len() - (p.len() - end)) =~= inserted);
}

/// Law: when the previous selection is a caret, the replaced range starts after
/// the longest common prefix of the previous and current committed text, and
/// ends before the longest common suffix of what follows that prefix: no longer
/// common prefix, and no longer common suffix after it, exists.
pub proof fn law_find_edit_longest_common_prefix_and_suffix(
    previous: CommittedView,
    current: CommittedView,
)
    requires
        previous.wf(),
        current.wf(),
        previous.selection.spec_is_caret(),
        previous.text != current.text,
    ensures
        find_edit_spec(previous, current) matches Some(edit) && {
            let p = previous.text;
            let c = current.text;
            let a = edit.removed.anchor as int;
            let b = edit.removed.cursor as int;
            let kept = p.len() - b;
            &&& a <= b <= p.len()
            &&& a + kept <= c.len()
            &&& p.take(a) == c.take(a)
            &&& (a == p.len() || a == c.len() || p[a] != c[a])
            &&& p.skip(b) == c.skip(c.len() - kept)
            &&& (b == a || c.len() - kept == a || p[b - 1] != c[c.len() - kept - 1])
            &&& edit.inserted == c.subrange(a, c.len() - kept)
        },
{
    let p = previous.text;
    let c = current.text;
    lemma_common_prefix(p, c);
    let a = common_prefix_len_spec(p, c) as int;
    let ps = p.skip(a);
    let cs = c.skip(a);
    lemma_common_suffix(ps, cs);
    let k = common_suffix_len_spec(ps, cs) as int;
    assert(p.skip(p.len() - k) =~= ps.skip(ps.len() - k));
    assert(c.skip(c.len() - k) =~= cs.skip(cs.len() - k));
    if k < ps.len() && k < cs.len() {
        assert(ps[ps.len() - 1 - k] == p[p.len() - k - 1]);
        assert(cs[cs.len() - 1 - k] == c[c.len() - k - 1]);
    }
}

/// Law: typing over a selection (the new text keeps what stood before and
/// after the selection, the caret ends after the typed text, and no
/// composition is involved) gives one Backspace, which deletes the selection,
/// and one commit of the whole typed text.
pub proof fn law_typing_over_selection(
    machine: MachineView,
    snapshot: SnapshotView,
    inserted: Seq<char>,
)
    requires
        machine.wf(),
        machine.composition_start is None,
        !machine.committed.selection.spec_is_caret(),
        snapshot.wf(),
        snapshot.composition is None,
        inserted.len() > 0,
        snapshot.text == machine.committed.text.take(
            machine.committed.selection.spec_start() as int,
        ) + inserted + machine.committed.text.skip(machine.committed.selection.spec_end() as int),
        snapshot.text != machine.committed.text,
        snapshot.selection == TextRange::spec_caret(
            (machine.committed.selection.spec_start() + inserted.len()) as usize,
        ),
    ensures
        handle_spec(machine, snapshot) == seq![
            ActionView::Control { code: NativeTextControl::Backspace, repeat: 1 },
            ActionView::Commit(inserted),
        ],
{
    let parsed = parse_snapshot(snapshot);
    law_find_edit_replaces_selection(machine.committed, parsed.committed, inserted);
    let empty = Seq::<ActionView>::empty();
    let pressed = push_control_spec(empty, NativeTextControl::Backspace, 1);
    assert(pressed =~= seq![ActionView::Control { code: NativeTextControl::Backspace, repeat: 1 }]);
    assert(pressed.push(ActionView::Commit(inserted)) =~= seq![
        ActionView::Control { code: NativeTextControl::Backspace, repeat: 1 },
        ActionView::Commit(inserted),
    ]);
}

/// Law: text appended at the caret at the end of the committed text, with the
/// caret after it and no composition involved, is committed as it is, with no
/// other action.
pub proof fn law_appending_commits_only_the_added_text(
    machine: MachineView,
    snapshot: SnapshotView,
    added: Seq<char>,
)
    requires
        machine.wf(),
        machine.composition_start is None,
        machine.committed.selection == TextRange::spec_caret(
            machine.committed.text.len() as usize,
        ),
        snapshot.wf(),
        snapshot.composition is None,
        added.len() > 0,
        snapshot.text == machine.committed.text + added,
        snapshot.selection == TextRange::spec_caret(snapshot.text.len() as usize),
    ensures
        handle_spec(machine, snapshot) == seq![ActionView::Commit(added)],
{
    let parsed = parse_snapshot(snapshot);
    let p = machine.committed.text;
    let c = snapshot.text;
    assert(c.len() > p.len());
    assert(c != p);
    law_find_edit_longest_common_prefix_and_suffix(machine.committed, parsed.committed);
    let edit = find_edit_spec(machine.committed, parsed.committed)->0;
    let a = edit.removed.anchor as int;
    if a < p.len() {
        assert(c[a] == p[a]);
    }
    assert(a == p.len());
    assert(edit.removed.cursor == p.len());
    assert(edit.inserted =~= added);
    assert(Seq::<ActionView>::empty().push(ActionView::Commit(added)) =~= seq![
        ActionView::Commit(added),
    ]);
}

/// Law: a snapshot splits into committed text and composition without losing
/// or reordering anything: putting the composed text back at its insertion
/// point gives the snapshot's text, and a selection end inside the composed
/// span lands on the insertion point.
pub proof fn law_parse_snapshot_reassembles(snapshot: SnapshotView)
    requires
        snapshot.wf(),
    ensures
        (parse_snapshot(snapshot).composition matches Some(c) ==> {
            let committed = parse_snapshot(snapshot).committed;
            let span = snapshot.composition->0;
            &&& committed.text.take(c.insertion as int) + c.text + committed.text.skip(
                c.insertion as int,
            ) == snapshot.text
            &&& c.insertion == span.spec_start()
            &&& (span.spec_start() <= snapshot.selection.cursor <= span.spec_end()
                ==> committed.selection.cursor == c.insertion)
        }),
        (parse_snapshot(snapshot).composition is None ==> parse_snapshot(snapshot).committed
            == (CommittedView { text: snapshot.text, selection: snapshot.selection })),
{
    if let Some(c) = parse_snapshot(snapshot).composition {
        let committed = parse_snapshot(snapshot).committed;
        let span = snapshot.composition->0;
        let start = span.spec_start() as int;
        let end = span.spec_end() as int;
        assert(committed.text.take(start) =~= snapshot.text.take(start));
        assert(committed.text.skip(start) =~= snapshot.text.skip(end));
        assert(snapshot.text.take(start) + c.text + snapshot.text.skip(end) =~= snapshot.text);
    }
}

} // verus!
