//! Translation of Android's full-buffer text input into incremental editing
//! actions.
//!
//! Android's input method reports the whole edit buffer after every change: its
//! text, the selection, and the span of the text that is still being composed.
//! The player's text fields, on the other hand, take incremental actions: commit
//! this text, show this preedit, press Backspace twice, move the caret left.
//! [`TextInputStateMachine`] remembers the previous snapshot and emits the
//! actions that take the text field from it to the next one.
//!
//! Positions in this module count characters (Unicode scalar values). The
//! offsets that Android reports count UTF-16 code units and are converted on
//! the way in; the preedit cursor that goes out counts UTF-8 bytes.

use vstd::prelude::*;
use crate::encoding::{
    chars_of, copy_chars, remove_chars, string_from_chars, utf16_char_index, utf16_to_char_index,
    utf8_len, utf8_len_of,
};

verus! {

/// Largest number of characters that a text buffer holds: a character buffer
/// stores four bytes per character, and no allocation exceeds `isize::MAX` bytes.
pub const MAX_TEXT_CHARS: usize = usize::MAX / 8;

/// An editing key that the text field is asked to press.
#[derive(Debug, Clone, Copy, PartialEq, Eq, Structural)]
pub enum NativeTextControl {
    MoveLeft,
    MoveRight,
    SelectLeft,
    SelectRight,
    Backspace,
    Delete,
}

/// One incremental action for the text field.
#[derive(Debug, Clone, PartialEq, Eq)]
pub enum TextInputAction {
    /// Show (or, with an empty text, clear) the text under composition, with the
    /// cursor given as UTF-8 byte offsets into that text.
    Preedit(String, Option<(usize, usize)>),
    /// Replace the selection with this text.
    Commit(String),
    /// Press `code`, `repeat` times.
    Control { code: NativeTextControl, repeat: usize },
}

/// The mathematical value of a [`TextInputAction`].
pub enum ActionView {
    Preedit(Seq<char>, Option<(nat, nat)>),
    Commit(Seq<char>),
    Control { code: NativeTextControl, repeat: nat },
}

impl View for TextInputAction {
    type V = ActionView;

    open spec fn view(&self) -> ActionView {
        match self {
            TextInputAction::Preedit(text, cursor) => ActionView::Preedit(
                text@,
                match cursor {
                    Some(c) => Some((c.0 as nat, c.1 as nat)),
                    None => None,
                },
            ),
            TextInputAction::Commit(text) => ActionView::Commit(text@),
            TextInputAction::Control { code, repeat } => ActionView::Control {
                code: *code,
                repeat: *repeat as nat,
            },
        }
    }
}

/// The values of a list of actions.
pub open spec fn actions_view(actions: Seq<TextInputAction>) -> Seq<ActionView> {
    actions.map_values(|a: TextInputAction| a@)
}

/// A selection or a span: `anchor` is where it started, `cursor` where it ends
/// now; `cursor` may lie before `anchor`.
#[derive(Debug, Clone, Copy, PartialEq, Eq, Structural)]
pub struct TextRange {
    pub anchor: usize,
    pub cursor: usize,
}

impl TextRange {
    pub open spec fn spec_new(anchor: usize, cursor: usize) -> TextRange {
        TextRange { anchor, cursor }
    }

    pub open spec fn spec_caret(position: usize) -> TextRange {
        TextRange { anchor: position, cursor: position }
    }

    pub open spec fn spec_start(self) -> usize {
        if self.anchor <= self.cursor {
            self.anchor
        } else {
            self.cursor
        }
    }

    pub open spec fn spec_end(self) -> usize {
        if self.anchor <= self.cursor {
            self.cursor
        } else {
            self.anchor
        }
    }

    pub open spec fn spec_ordered(self) -> TextRange {
        TextRange { anchor: self.spec_start(), cursor: self.spec_end() }
    }

    pub open spec fn spec_is_caret(self) -> bool {
        self.anchor == self.cursor
    }

    /// Both ends lie in a text of `len` characters.
    pub open spec fn within(self, len: nat) -> bool {
        self.anchor <= len && self.cursor <= len
    }

    fn new(anchor: usize, cursor: usize) -> (range: TextRange)
        ensures
            range == TextRange::spec_new(anchor, cursor),
    {
        TextRange { anchor, cursor }
    }

    fn caret(position: usize) -> (range: TextRange)
        ensures
            range == TextRange::spec_caret(position),
    {
        TextRange::new(position, position)
    }

    fn ordered(self) -> (range: TextRange)
        ensures
            range == self.spec_ordered(),
    {
        TextRange::new(self.start(), self.end())
    }

    fn start(self) -> (start: usize)
        ensures
            start == self.spec_start(),
    {
        if self.anchor <= self.cursor {
            self.anchor
        } else {
            self.cursor
        }
    }

    fn end(self) -> (end: usize)
        ensures
            end == self.spec_end(),
    {
        if self.anchor <= self.cursor {
            self.cursor
        } else {
            self.anchor
        }
    }

    fn is_caret(self) -> (caret: bool)
        ensures
            caret == self.spec_is_caret(),
    {
        self.anchor == self.cursor
    }
}

/// The value of a [`TextInputSnapshot`]: the text, the selection, and the span
/// under composition, as character positions. A span, when present, is ordered
/// and not empty.
pub struct SnapshotView {
    pub text: Seq<char>,
    pub selection: TextRange,
    pub composition: Option<TextRange>,
}

impl SnapshotView {
    pub open spec fn wf(self) -> bool {
        &&& self.text.len() <= MAX_TEXT_CHARS
        &&& self.selection.within(self.text.len())
        &&& self.composition matches Some(span) ==> span.anchor < span.cursor <= self.text.len()
    }
}

/// Committed text (everything but the span under composition) and its selection.
pub struct CommittedView {
    pub text: Seq<char>,
    pub selection: TextRange,
}

impl CommittedView {
    pub open spec fn wf(self) -> bool {
        &&& self.text.len() <= MAX_TEXT_CHARS
        &&& self.selection.within(self.text.len())
    }
}

/// Text under composition, the cursor in it as UTF-8 byte offsets, and the
/// position in the committed text where it is inserted.
pub struct CompositionView {
    pub text: Seq<char>,
    pub cursor: (nat, nat),
    pub insertion: usize,
}

/// A snapshot split into committed text and composition.
pub struct ParsedView {
    pub committed: CommittedView,
    pub composition: Option<CompositionView>,
}

/// What the state machine remembers of the last snapshot.
pub struct MachineView {
    pub committed: CommittedView,
    pub composition_start: Option<usize>,
}

impl MachineView {
    pub open spec fn wf(self) -> bool {
        &&& self.committed.wf()
        &&& self.composition_start matches Some(p) ==> p <= self.committed.text.len()
    }
}

/// One replacement: the characters `removed` of the old text give way to `inserted`.
pub struct EditView {
    pub removed: TextRange,
    pub inserted: Seq<char>,
}

/// A full-buffer snapshot of Android's text input.
#[derive(Debug)]
pub struct TextInputSnapshot {
    text: Vec<char>,
    selection: TextRange,
    composition: Option<TextRange>,
}

impl View for TextInputSnapshot {
    type V = SnapshotView;

    closed spec fn view(&self) -> SnapshotView {
        SnapshotView { text: self.text@, selection: self.selection, composition: self.composition }
    }
}

impl TextInputSnapshot {
    #[verifier::type_invariant]
    closed spec fn inv(self) -> bool {
        self@.wf()
    }
}

impl Clone for TextInputSnapshot {
    fn clone(&self) -> (copy: Self)
        ensures
            copy@ == self@,
    {
        proof {
            use_type_invariant(self);
        }
        let text = copy_chars(&self.text, 0, self.text.len());
        assert(text@ =~= self.text@);
        TextInputSnapshot {
            text,
            selection: self.selection,
            composition: self.composition,
        }
    }
}

/// The span given in UTF-16 code units, as an ordered, non-empty character span.
pub open spec fn composition_span(text: Seq<char>, composition: Option<(usize, usize)>) -> Option<
    TextRange,
> {
    match composition {
        Some(span) => {
            let range = TextRange::spec_new(
                utf16_char_index(text, span.0 as int) as usize,
                utf16_char_index(text, span.1 as int) as usize,
            ).spec_ordered();
            if range.spec_is_caret() {
                None
            } else {
                Some(range)
            }
        },
        None => None,
    }
}

impl TextInputSnapshot {
    /// Takes a snapshot as Android reports it: the selection and the composing
    /// span are UTF-16 offsets into `text`. An offset that lands inside a
    /// surrogate pair falls back to the start of that character; one beyond the
    /// end falls back to the end. The composing span is put in order, and
    /// dropped when it is empty.
    pub fn from_utf16(
        text: String,
        selection: (usize, usize),
        composition: Option<(usize, usize)>,
    ) -> (snapshot: Self)
        requires
            text@.len() <= MAX_TEXT_CHARS,
        ensures
            snapshot@.text == text@,
            snapshot@.selection == TextRange::spec_new(
                utf16_char_index(text@, selection.0 as int) as usize,
                utf16_char_index(text@, selection.1 as int) as usize,
            ),
            snapshot@.composition == composition_span(text@, composition),
            snapshot@.wf(),
    {
        let chars = chars_of(text.as_str());
        let selection = TextRange::new(
            utf16_to_char_index(&chars, selection.0),
            utf16_to_char_index(&chars, selection.1),
        );
        let composition = match composition {
            Some(span) => {
                let range = TextRange::new(
                    utf16_to_char_index(&chars, span.0),
                    utf16_to_char_index(&chars, span.1),
                ).ordered();
                if range.is_caret() {
                    None
                } else {
                    Some(range)
                }
            },
            None => None,
        };
        TextInputSnapshot { text: chars, selection, composition }
    }
}

/// Committed text and selection, as the state machine keeps them.
#[derive(Debug)]
struct CommittedState {
    text: Vec<char>,
    selection: TextRange,
}

impl View for CommittedState {
    type V = CommittedView;

    closed spec fn view(&self) -> CommittedView {
        CommittedView { text: self.text@, selection: self.selection }
    }
}

/// The state machine that turns snapshots into actions.
#[derive(Debug)]
pub struct TextInputStateMachine {
    committed: CommittedState,
    composition_start: Option<usize>,
}

impl View for TextInputStateMachine {
    type V = MachineView;

    closed spec fn view(&self) -> MachineView {
        MachineView { committed: self.committed@, composition_start: self.composition_start }
    }
}

impl TextInputStateMachine {
    #[verifier::type_invariant]
    closed spec fn inv(self) -> bool {
        self@.wf()
    }
}

impl Default for TextInputStateMachine {
    /// An empty text with the caret at its start, and no composition.
    fn default() -> (machine: Self)
        ensures
            machine@ == (MachineView {
                committed: CommittedView {
                    text: Seq::<char>::empty(),
                    selection: TextRange::spec_caret(0),
                },
                composition_start: None,
            }),
    {
        TextInputStateMachine {
            committed: CommittedState { text: Vec::new(), selection: TextRange::caret(0) },
            composition_start: None,
        }
    }
}

/// `actions` followed by `repeat` presses of `code`; when `actions` already
/// ends with presses of `code`, their count grows instead.
pub open spec fn push_control_spec(
    actions: Seq<ActionView>,
    code: NativeTextControl,
    repeat: nat,
) -> Seq<ActionView> {
    if repeat == 0 {
        actions
    } else if actions.len() > 0 && (actions.last() matches ActionView::Control {
        code: last_code,
        ..
    } && last_code == code) {
        actions.update(
            actions.len() - 1,
            ActionView::Control { code, repeat: last_repeat(actions) + repeat },
        )
    } else {
        actions.push(ActionView::Control { code, repeat })
    }
}

/// Repeat count of the last action, when it is a key press.
pub open spec fn last_repeat(actions: Seq<ActionView>) -> nat {
    if actions.len() == 0 {
        0
    } else {
        match actions.last() {
            ActionView::Control { repeat, .. } => repeat,
            _ => 0,
        }
    }
}

/// Moves (or, with `select`, extends the selection) from `from` to `to`, one
/// character per press.
pub open spec fn directional_navigation_spec(
    actions: Seq<ActionView>,
    from: usize,
    to: usize,
    select: bool,
) -> Seq<ActionView> {
    if from == to {
        actions
    } else if from > to {
        push_control_spec(
            actions,
            if select {
                NativeTextControl::SelectLeft
            } else {
                NativeTextControl::MoveLeft
            },
            (from - to) as nat,
        )
    } else {
        push_control_spec(
            actions,
            if select {
                NativeTextControl::SelectRight
            } else {
                NativeTextControl::MoveRight
            },
            (to - from) as nat,
        )
    }
}

/// Key presses that turn selection `from` into selection `to`: a selection
/// collapses with one Left (or Right) press first, then the caret moves to the
/// new anchor, then the selection extends to the new cursor.
pub open spec fn navigation_spec(
    actions: Seq<ActionView>,
    from: TextRange,
    to: TextRange,
) -> Seq<ActionView> {
    if from == to {
        actions
    } else if !from.spec_is_caret() && to.spec_is_caret() && to.cursor == from.spec_start() {
        push_control_spec(actions, NativeTextControl::MoveLeft, 1)
    } else if !from.spec_is_caret() && to.spec_is_caret() && to.cursor == from.spec_end() {
        push_control_spec(actions, NativeTextControl::MoveRight, 1)
    } else {
        let collapsed = if !from.spec_is_caret() {
            push_control_spec(actions, NativeTextControl::MoveLeft, 1)
        } else {
            actions
        };
        let position = if !from.spec_is_caret() {
            from.spec_start()
        } else {
            from.cursor
        };
        directional_navigation_spec(
            directional_navigation_spec(collapsed, position, to.anchor, false),
            to.anchor,
            to.cursor,
            true,
        )
    }
}

/// Sum of the repeat counts of the key presses in `actions`.
pub open spec fn total_repeat(actions: Seq<ActionView>) -> nat
    decreases actions.len(),
{
    if actions.len() == 0 {
        0
    } else {
        total_repeat(actions.drop_last()) + last_repeat(actions)
    }
}

/// Distance between two positions.
pub open spec fn distance(a: usize, b: usize) -> nat {
    if a <= b {
        (b - a) as nat
    } else {
        (a - b) as nat
    }
}

/// Number of presses that `navigation_spec` adds.
pub open spec fn navigation_cost(from: TextRange, to: TextRange) -> nat {
    if from == to {
        0
    } else if !from.spec_is_caret() && to.spec_is_caret() && (to.cursor == from.spec_start()
        || to.cursor == from.spec_end()) {
        1
    } else if !from.spec_is_caret() {
        1 + distance(from.spec_start(), to.anchor) + distance(to.anchor, to.cursor)
    } else {
        distance(from.cursor, to.anchor) + distance(to.anchor, to.cursor)
    }
}

/// Lemma: pushing `n` presses adds `n` to the total, and the last count is part
/// of the total.
pub proof fn lemma_push_control_total(actions: Seq<ActionView>, code: NativeTextControl, n: nat)
    ensures
        total_repeat(push_control_spec(actions, code, n)) == total_repeat(actions) + n,
        last_repeat(actions) <= total_repeat(actions),
{
    if actions.len() > 0 {
        assert(actions.drop_last() == actions.drop_last());
    }
    if n > 0 {
        let result = push_control_spec(actions, code, n);
        if actions.len() > 0 && (actions.last() matches ActionView::Control {
            code: last_code,
            ..
        } && last_code == code) {
            assert(result.drop_last() =~= actions.drop_last());
        } else {
            assert(result.drop_last() =~= actions);
        }
    }
}

/// Lemma: navigation adds exactly `navigation_cost` presses.
pub proof fn lemma_navigation_total(actions: Seq<ActionView>, from: TextRange, to: TextRange)
    ensures
        total_repeat(navigation_spec(actions, from, to)) == total_repeat(actions) + navigation_cost(
            from,
            to,
        ),
{
    if from == to {
    } else if !from.spec_is_caret() && to.spec_is_caret() && to.cursor == from.spec_start() {
        lemma_push_control_total(actions, NativeTextControl::MoveLeft, 1);
    } else if !from.spec_is_caret() && to.spec_is_caret() && to.cursor == from.spec_end() {
        lemma_push_control_total(actions, NativeTextControl::MoveRight, 1);
    } else {
        let collapsed = if !from.spec_is_caret() {
            push_control_spec(actions, NativeTextControl::MoveLeft, 1)
        } else {
            actions
        };
        let position = if !from.spec_is_caret() {
            from.spec_start()
        } else {
            from.cursor
        };
        lemma_push_control_total(actions, NativeTextControl::MoveLeft, 1);
        lemma_directional_total(collapsed, position, to.anchor, false);
        lemma_directional_total(
            directional_navigation_spec(collapsed, position, to.anchor, false),
            to.anchor,
            to.cursor,
            true,
        );
    }
}

/// Lemma: directional navigation adds one press per character of distance.
pub proof fn lemma_directional_total(actions: Seq<ActionView>, from: usize, to: usize, select: bool)
    ensures
        total_repeat(directional_navigation_spec(actions, from, to, select)) == total_repeat(actions)
            + distance(from, to),
{
    lemma_push_control_total(actions, NativeTextControl::MoveLeft, distance(from, to));
    lemma_push_control_total(actions, NativeTextControl::MoveRight, distance(from, to));
    lemma_push_control_total(actions, NativeTextControl::SelectLeft, distance(from, to));
    lemma_push_control_total(actions, NativeTextControl::SelectRight, distance(from, to));
}

/// Lemma: the view of a list grows with the view of a pushed action.
proof fn lemma_actions_view_push(actions: Seq<TextInputAction>, action: TextInputAction)
    ensures
        actions_view(actions.push(action)) == actions_view(actions).push(action@),
{
    assert(actions_view(actions.push(action)) =~= actions_view(actions).push(action@));
}

/// Lemma: the view of a list follows an update of one of its actions.
proof fn lemma_actions_view_update(actions: Seq<TextInputAction>, i: int, action: TextInputAction)
    requires
        0 <= i < actions.len(),
    ensures
        actions_view(actions.update(i, action)) == actions_view(actions).update(i, action@),
{
    assert(actions_view(actions.update(i, action)) =~= actions_view(actions).update(i, action@));
}

/// Appends `repeat` presses of `code`, merging them into a trailing run of the
/// same key.
fn push_control(actions: &mut Vec<TextInputAction>, code: NativeTextControl, repeat: usize)
    requires
        total_repeat(actions_view(old(actions)@)) + repeat <= usize::MAX,
    ensures
        actions_view(final(actions)@) == push_control_spec(
            actions_view(old(actions)@),
            code,
            repeat as nat,
        ),
{
    if repeat == 0 {
        return;
    }
    let n = actions.len();
    proof {
        lemma_push_control_total(actions_view(actions@), code, repeat as nat);
    }
    if n > 0 {
        let merged = match &actions[n - 1] {
            TextInputAction::Control { code: previous_code, repeat: previous_repeat } => {
                if *previous_code == code {
                    Some(*previous_repeat)
                } else {
                    None
                }
            },
            _ => None,
        };
        if let Some(previous_repeat) = merged {
            let ghost before = actions@;
            assert(actions_view(before).last() == before[n - 1]@);
            let action = TextInputAction::Control { code, repeat: previous_repeat + repeat };
            actions.set(n - 1, action);
            proof {
                lemma_actions_view_update(before, n - 1, action);
            }
            return;
        }
    }
    let ghost before = actions@;
    let action = TextInputAction::Control { code, repeat };
    actions.push(action);
    proof {
        lemma_actions_view_push(before, action);
    }
}

/// Moves or extends the selection from `from` to `to`, one character per press.
fn append_directional_navigation(
    actions: &mut Vec<TextInputAction>,
    from: usize,
    to: usize,
    select: bool,
)
    requires
        total_repeat(actions_view(old(actions)@)) + distance(from, to) <= usize::MAX,
    ensures
        actions_view(final(actions)@) == directional_navigation_spec(
            actions_view(old(actions)@),
            from,
            to,
            select,
        ),
{
    if from == to {
        return;
    }
    if from > to {
        let code = if select {
            NativeTextControl::SelectLeft
        } else {
            NativeTextControl::MoveLeft
        };
        push_control(actions, code, from - to);
    } else {
        let code = if select {
            NativeTextControl::SelectRight
        } else {
            NativeTextControl::MoveRight
        };
        push_control(actions, code, to - from);
    }
}

/// Key presses that turn selection `from` into selection `to`.
fn append_navigation(actions: &mut Vec<TextInputAction>, from: TextRange, to: TextRange)
    requires
        total_repeat(actions_view(old(actions)@)) + navigation_cost(from, to) <= usize::MAX,
    ensures
        actions_view(final(actions)@) == navigation_spec(actions_view(old(actions)@), from, to),
{
    if from == to {
        return;
    }
    let ghost start = actions_view(actions@);
    let mut position = from.cursor;
    if !from.is_caret() {
        if to.is_caret() && to.cursor == from.start() {
            push_control(actions, NativeTextControl::MoveLeft, 1);
            return;
        }
        if to.is_caret() && to.cursor == from.end() {
            push_control(actions, NativeTextControl::MoveRight, 1);
            return;
        }
        push_control(actions, NativeTextControl::MoveLeft, 1);
        proof {
            lemma_push_control_total(start, NativeTextControl::MoveLeft, 1);
        }
        position = from.start();
    }
    proof {
        lemma_directional_total(actions_view(actions@), position, to.anchor, false);
    }
    append_directional_navigation(actions, position, to.anchor, false);
    append_directional_navigation(actions, to.anchor, to.cursor, true);
}

/// `value` brought into `low..=high`.
pub open spec fn clamp_position(value: usize, low: usize, high: usize) -> usize {
    if value < low {
        low
    } else if value > high {
        high
    } else {
        value
    }
}

/// Where `position` lands in the text once `composition` is taken out of it.
pub open spec fn without_composition_spec(position: usize, composition: TextRange) -> usize {
    if position <= composition.spec_start() {
        position
    } else if position >= composition.spec_end() {
        (position - (composition.spec_end() - composition.spec_start())) as usize
    } else {
        composition.spec_start()
    }
}

/// Splits a snapshot into the committed text and the text under composition.
/// The composed span is cut out of the committed text, which keeps the
/// selection with positions past the span shifted left and positions inside it
/// moved to its start; the cursor in the composed text is the selection clamped
/// to the span, in UTF-8 bytes.
pub open spec fn parse_snapshot(snapshot: SnapshotView) -> ParsedView {
    match snapshot.composition {
        None => ParsedView {
            committed: CommittedView { text: snapshot.text, selection: snapshot.selection },
            composition: None,
        },
        Some(span) => {
            let start = span.spec_start();
            let end = span.spec_end();
            let text = snapshot.text.subrange(start as int, end as int);
            let anchor = clamp_position(snapshot.selection.anchor, start, end) - start;
            let cursor = clamp_position(snapshot.selection.cursor, start, end) - start;
            ParsedView {
                committed: CommittedView {
                    text: snapshot.text.take(start as int) + snapshot.text.skip(end as int),
                    selection: TextRange::spec_new(
                        without_composition_spec(snapshot.selection.anchor, span),
                        without_composition_spec(snapshot.selection.cursor, span),
                    ),
                },
                composition: Some(
                    CompositionView {
                        text,
                        cursor: (utf8_len(text.take(anchor)), utf8_len(text.take(cursor))),
                        insertion: start,
                    },
                ),
            }
        },
    }
}

/// Where the composition is inserted, if there is one.
pub open spec fn composition_insertion(composition: Option<CompositionView>) -> Option<usize> {
    match composition {
        Some(c) => Some(c.insertion),
        None => None,
    }
}

/// What the state machine remembers after it has seen `snapshot`.
pub open spec fn machine_after(snapshot: SnapshotView) -> MachineView {
    let parsed = parse_snapshot(snapshot);
    MachineView {
        committed: parsed.committed,
        composition_start: composition_insertion(parsed.composition),
    }
}

/// Lemma: a well-formed snapshot splits into well-formed parts.
pub proof fn lemma_parse_snapshot_wf(snapshot: SnapshotView)
    requires
        snapshot.wf(),
    ensures
        machine_after(snapshot).wf(),
        parse_snapshot(snapshot).composition matches Some(c) ==> c.text.len() > 0 && c.insertion
            <= parse_snapshot(snapshot).committed.text.len(),
{
}

fn clamp(value: usize, low: usize, high: usize) -> (clamped: usize)
    ensures
        clamped == clamp_position(value, low, high),
{
    if value < low {
        low
    } else if value > high {
        high
    } else {
        value
    }
}

fn without_composition(position: usize, composition: TextRange) -> (moved: usize)
    ensures
        moved == without_composition_spec(position, composition),
{
    if position <= composition.start() {
        position
    } else if position >= composition.end() {
        position - (composition.end() - composition.start())
    } else {
        composition.start()
    }
}

/// The text under composition, as the state machine keeps it.
struct Composition {
    text: String,
    cursor: TextRange,
    insertion: usize,
}

impl View for Composition {
    type V = CompositionView;

    closed spec fn view(&self) -> CompositionView {
        CompositionView {
            text: self.text@,
            cursor: (self.cursor.anchor as nat, self.cursor.cursor as nat),
            insertion: self.insertion,
        }
    }
}

/// A snapshot split into committed text and composition.
struct ParsedInput {
    committed: CommittedState,
    composition: Option<Composition>,
}

impl View for ParsedInput {
    type V = ParsedView;

    closed spec fn view(&self) -> ParsedView {
        ParsedView {
            committed: self.committed@,
            composition: match self.composition {
                Some(c) => Some(c@),
                None => None,
            },
        }
    }
}

fn parse_input(snapshot: TextInputSnapshot) -> (parsed: ParsedInput)
    ensures
        snapshot@.wf(),
        parsed@ == parse_snapshot(snapshot@),
{
    proof {
        use_type_invariant(&snapshot);
    }
    let ghost view = snapshot@;
    let TextInputSnapshot { text, selection, composition } = snapshot;
    match composition {
        None => ParsedInput { committed: CommittedState { text, selection }, composition: None },
        Some(span) => {
            let start = span.start();
            let end = span.end();
            let composition_text = string_from_chars(&text, start, end);
            let anchor = clamp(selection.anchor, start, end) - start;
            let cursor = clamp(selection.cursor, start, end) - start;
            let anchor_bytes = utf8_len_of(&text, start, start + anchor);
            let cursor_bytes = utf8_len_of(&text, start, start + cursor);
            proof {
                let composed = text@.subrange(start as int, end as int);
                assert(composed.take(anchor as int) =~= text@.subrange(
                    start as int,
                    start + anchor,
                ));
                assert(composed.take(cursor as int) =~= text@.subrange(
                    start as int,
                    start + cursor,
                ));
            }
            let committed_text = remove_chars(&text, start, end);
            let committed_selection = TextRange::new(
                without_composition(selection.anchor, span),
                without_composition(selection.cursor, span),
            );
            ParsedInput {
                committed: CommittedState { text: committed_text, selection: committed_selection },
                composition: Some(
                    Composition {
                        text: composition_text,
                        cursor: TextRange::new(anchor_bytes, cursor_bytes),
                        insertion: start,
                    },
                ),
            }
        },
    }
}

/// Length of the longest common prefix of `a` and `b`.
pub open spec fn common_prefix_len_spec(a: Seq<char>, b: Seq<char>) -> nat
    decreases a.len(),
{
    if a.len() == 0 || b.len() == 0 || a[0] != b[0] {
        0
    } else {
        1 + common_prefix_len_spec(a.drop_first(), b.drop_first())
    }
}

/// Length of the longest common suffix of `a` and `b`.
pub open spec fn common_suffix_len_spec(a: Seq<char>, b: Seq<char>) -> nat
    decreases a.len(),
{
    if a.len() == 0 || b.len() == 0 || a.last() != b.last() {
        0
    } else {
        1 + common_suffix_len_spec(a.drop_last(), b.drop_last())
    }
}

/// Lemma: the common prefix is a prefix of both sequences.
pub proof fn lemma_common_prefix(a: Seq<char>, b: Seq<char>)
    ensures
        common_prefix_len_spec(a, b) <= a.len(),
        common_prefix_len_spec(a, b) <= b.len(),
        a.take(common_prefix_len_spec(a, b) as int) == b.take(common_prefix_len_spec(a, b) as int),
        common_prefix_len_spec(a, b) < a.len() && common_prefix_len_spec(a, b) < b.len() ==> a[common_prefix_len_spec(a, b) as int]
            != b[common_prefix_len_spec(a, b) as int],
    decreases a.len(),
{
    if a.len() == 0 || b.len() == 0 || a[0] != b[0] {
        assert(a.take(0) =~= b.take(0));
    } else {
        lemma_common_prefix(a.drop_first(), b.drop_first());
        let n = common_prefix_len_spec(a.drop_first(), b.drop_first());
        assert(a.take(n + 1int) =~= seq![a[0]] + a.drop_first().take(n as int));
        assert(b.take(n + 1int) =~= seq![b[0]] + b.drop_first().take(n as int));
    }
}

/// Lemma: the common suffix is a suffix of both sequences.
pub proof fn lemma_common_suffix(a: Seq<char>, b: Seq<char>)
    ensures
        common_suffix_len_spec(a, b) <= a.len(),
        common_suffix_len_spec(a, b) <= b.len(),
        a.skip(a.len() - common_suffix_len_spec(a, b)) == b.skip(
            b.len() - common_suffix_len_spec(a, b),
        ),
        common_suffix_len_spec(a, b) < a.len() && common_suffix_len_spec(a, b) < b.len() ==> a[a.len()
            - 1 - common_suffix_len_spec(a, b)] != b[b.len() - 1 - common_suffix_len_spec(a, b)],
    decreases a.len(),
{
    if a.len() == 0 || b.len() == 0 || a.last() != b.last() {
        assert(a.skip(a.len() as int) =~= b.skip(b.len() as int));
    } else {
        lemma_common_suffix(a.drop_last(), b.drop_last());
        let n = common_suffix_len_spec(a.drop_last(), b.drop_last());
        let da = a.drop_last();
        let db = b.drop_last();
        assert(a.skip(a.len() - (n + 1)) =~= da.skip(da.len() - n).push(a.last()));
        assert(b.skip(b.len() - (n + 1)) =~= db.skip(db.len() - n).push(b.last()));
    }
}

/// The smallest replacement that turns the previous committed text into the
/// current one, or `None` when the text did not change. When the previous
/// selection was not a caret and the current text keeps everything around it,
/// the whole selection is what was replaced; otherwise the replaced part is
/// what lies between the longest common prefix and the longest common suffix.
pub open spec fn find_edit_spec(previous: CommittedView, current: CommittedView) -> Option<EditView> {
    if previous.text == current.text {
        None
    } else {
        let selection = previous.selection.spec_ordered();
        let start = selection.spec_start();
        let end = selection.spec_end();
        if !selection.spec_is_caret() && current.text.len() >= previous.text.len() - (end - start)
            && previous.text.take(start as int).is_prefix_of(current.text) && previous.text.skip(
            end as int,
        ).is_suffix_of(current.text) {
            Some(
                EditView {
                    removed: selection,
                    inserted: current.text.subrange(
                        start as int,
                        current.text.len() - (previous.text.len() - end),
                    ),
                },
            )
        } else {
            let prefix = common_prefix_len_spec(previous.text, current.text);
            let suffix = common_suffix_len_spec(
                previous.text.skip(prefix as int),
                current.text.skip(prefix as int),
            );
            Some(
                EditView {
                    removed: TextRange::spec_new(
                        prefix as usize,
                        (previous.text.len() - suffix) as usize,
                    ),
                    inserted: current.text.subrange(prefix as int, current.text.len() - suffix),
                },
            )
        }
    }
}

/// Lemma: an edit that `find_edit_spec` reports is an ordered range of the
/// previous text, and replacing that range with the inserted text gives the
/// current text.
pub proof fn lemma_find_edit(previous: CommittedView, current: CommittedView)
    requires
        previous.wf(),
        current.wf(),
    ensures
        find_edit_spec(previous, current) is None <==> previous.text == current.text,
        find_edit_spec(previous, current) matches Some(edit) ==> {
            &&& edit.removed.anchor <= edit.removed.cursor <= previous.text.len()
            &&& edit.removed.anchor + edit.inserted.len() <= current.text.len()
            &&& previous.text.take(edit.removed.anchor as int) + edit.inserted
                + previous.text.skip(edit.removed.cursor as int) == current.text
            &&& !(edit.removed.spec_is_caret() && edit.inserted.len() == 0)
        },
{
    if previous.text != current.text {
        let p = previous.text;
        let c = current.text;
        let selection = previous.selection.spec_ordered();
        let start = selection.spec_start();
        let end = selection.spec_end();
        if !selection.spec_is_caret() && c.len() >= p.len() - (end - start) && p.take(
            start as int,
        ).is_prefix_of(c) && p.skip(end as int).is_suffix_of(c) {
            let inserted = c.subrange(start as int, c.len() - (p.len() - end));
            assert(p.take(start as int) + inserted + p.skip(end as int) =~= c);
        } else {
            let prefix = common_prefix_len_spec(p, c);
            lemma_common_prefix(p, c);
            let ps = p.skip(prefix as int);
            let cs = c.skip(prefix as int);
            let suffix = common_suffix_len_spec(ps, cs);
            lemma_common_suffix(ps, cs);
            let inserted = c.subrange(prefix as int, c.len() - suffix);
            assert(p.skip(p.len() - suffix) =~= ps.skip(ps.len() - suffix));
            assert(c.skip(c.len() - suffix) =~= cs.skip(cs.len() - suffix));
            assert(c =~= c.take(prefix as int) + inserted + c.skip(c.len() - suffix));
            assert(p.take(prefix as int) + inserted + p.skip(p.len() - suffix) =~= c);
            if prefix == p.len() - suffix && inserted.len() == 0 {
                assert(p =~= p.take(prefix as int) + p.skip(p.len() - suffix));
            }
        }
    }
}

/// One replacement, as the state machine computes it.
struct TextEdit {
    removed: TextRange,
    inserted: Vec<char>,
}

impl View for TextEdit {
    type V = EditView;

    closed spec fn view(&self) -> EditView {
        EditView { removed: self.removed, inserted: self.inserted@ }
    }
}

fn same_chars(a: &Vec<char>, b: &Vec<char>) -> (same: bool)
    ensures
        same == (a@ == b@),
{
    if a.len() != b.len() {
        return false;
    }
    let mut i: usize = 0;
    while i < a.len()
        invariant
            i <= a.len() == b.len(),
            a@.take(i as int) == b@.take(i as int),
        decreases a.len() - i,
    {
        if a[i] != b[i] {
            assert(a@[i as int] != b@[i as int]);
            return false;
        }
        assert(a@.take(i + 1) =~= a@.take(i as int).push(a@[i as int]));
        assert(b@.take(i + 1) =~= b@.take(i as int).push(b@[i as int]));
        i += 1;
    }
    assert(a@ =~= a@.take(i as int));
    assert(b@ =~= b@.take(i as int));
    true
}

/// Whether `text` starts with `source[..len]`.
fn has_prefix(text: &Vec<char>, source: &Vec<char>, len: usize) -> (found: bool)
    requires
        len <= source.len(),
    ensures
        found == source@.take(len as int).is_prefix_of(text@),
{
    if len > text.len() {
        return false;
    }
    let mut i: usize = 0;
    while i < len
        invariant
            i <= len <= source.len(),
            len <= text.len(),
            forall|k: int| 0 <= k < i ==> source@[k] == text@[k],
        decreases len - i,
    {
        if source[i] != text[i] {
            assert(source@.take(len as int)[i as int] != text@.subrange(0, len as int)[i as int]);
            return false;
        }
        i += 1;
    }
    assert(source@.take(len as int) =~= text@.subrange(0, len as int));
    true
}

/// Whether `text` ends with `source[from..]`.
fn has_suffix(text: &Vec<char>, source: &Vec<char>, from: usize) -> (found: bool)
    requires
        from <= source.len(),
    ensures
        found == source@.skip(from as int).is_suffix_of(text@),
{
    let len = source.len() - from;
    if len > text.len() {
        return false;
    }
    let offset = text.len() - len;
    let mut i: usize = 0;
    while i < len
        invariant
            i <= len,
            len == source.len() - from,
            offset == text.len() - len,
            source@.subrange(from as int, from + i) == text@.subrange(offset as int, offset + i),
        decreases len - i,
    {
        if source[from + i] != text[offset + i] {
            assert(source@.skip(from as int)[i as int] != text@.subrange(
                offset as int,
                text.len() as int,
            )[i as int]);
            return false;
        }
        assert(source@.subrange(from as int, from + i + 1) =~= source@.subrange(
            from as int,
            from + i,
        ).push(source@[from + i]));
        assert(text@.subrange(offset as int, offset + i + 1) =~= text@.subrange(
            offset as int,
            offset + i,
        ).push(text@[offset + i]));
        i += 1;
    }
    assert(source@.skip(from as int) =~= text@.subrange(offset as int, text.len() as int));
    true
}

fn common_prefix_len(a: &Vec<char>, b: &Vec<char>) -> (len: usize)
    ensures
        len == common_prefix_len_spec(a@, b@),
{
    let mut i: usize = 0;
    proof {
        assert(a@.skip(0) =~= a@);
        assert(b@.skip(0) =~= b@);
    }
    while i < a.len() && i < b.len() && a[i] == b[i]
        invariant
            i <= a.len(),
            i <= b.len(),
            common_prefix_len_spec(a@, b@) == i + common_prefix_len_spec(
                a@.skip(i as int),
                b@.skip(i as int),
            ),
        decreases a.len() - i,
    {
        assert(a@.skip(i as int).drop_first() =~= a@.skip(i + 1));
        assert(b@.skip(i as int).drop_first() =~= b@.skip(i + 1));
        i += 1;
    }
    i
}

fn common_suffix_len(a: &Vec<char>, b: &Vec<char>, from: usize) -> (len: usize)
    requires
        from <= a.len(),
        from <= b.len(),
    ensures
        len == common_suffix_len_spec(a@.skip(from as int), b@.skip(from as int)),
{
    let mut k: usize = 0;
    let alen = a.len();
    let blen = b.len();
    proof {
        assert(a@.skip(from as int).subrange(0, alen - from) =~= a@.skip(from as int));
        assert(b@.skip(from as int).subrange(0, blen - from) =~= b@.skip(from as int));
    }
    while k < alen - from && k < blen - from && a[alen - 1 - k] == b[blen - 1 - k]
        invariant
            alen == a.len(),
            blen == b.len(),
            from <= alen,
            from <= blen,
            k <= alen - from,
            k <= blen - from,
            common_suffix_len_spec(a@.skip(from as int), b@.skip(from as int)) == k
                + common_suffix_len_spec(
                a@.subrange(from as int, alen - k),
                b@.subrange(from as int, blen - k),
            ),
        decreases alen - k,
    {
        assert(a@.subrange(from as int, alen - k).drop_last() =~= a@.subrange(
            from as int,
            alen - k - 1,
        ));
        assert(b@.subrange(from as int, blen - k).drop_last() =~= b@.subrange(
            from as int,
            blen - k - 1,
        ));
        k += 1;
    }
    k
}

fn find_edit(previous: &CommittedState, current: &CommittedState) -> (edit: Option<TextEdit>)
    requires
        previous@.wf(),
    ensures
        match edit {
            Some(e) => find_edit_spec(previous@, current@) == Some(e@),
            None => find_edit_spec(previous@, current@) is None,
        },
{
    if same_chars(&previous.text, &current.text) {
        return None;
    }
    let selection = previous.selection.ordered();
    let start = selection.start();
    let end = selection.end();
    if !selection.is_caret() && current.text.len() >= previous.text.len() - (end - start)
        && has_prefix(&current.text, &previous.text, start) && has_suffix(
        &current.text,
        &previous.text,
        end,
    ) {
        let inserted_end = current.text.len() - (previous.text.len() - end);
        let inserted = copy_chars(&current.text, start, inserted_end);
        return Some(TextEdit { removed: selection, inserted });
    }
    let prefix = common_prefix_len(&previous.text, &current.text);
    proof {
        lemma_common_prefix(previous.text@, current.text@);
    }
    let suffix = common_suffix_len(&previous.text, &current.text, prefix);
    proof {
        lemma_common_suffix(previous.text@.skip(prefix as int), current.text@.skip(prefix as int));
    }
    let inserted = copy_chars(&current.text, prefix, current.text.len() - suffix);
    Some(
        TextEdit {
            removed: TextRange::new(prefix, previous.text.len() - suffix),
            inserted,
        },
    )
}

/// Actions that carry out `edit` on a text field whose selection is
/// `selection`, and the selection afterwards. A removal goes by Backspace or
/// Delete: one Backspace when the removed range is exactly what is selected,
/// as many presses as characters when the caret sits at one end of it, and
/// otherwise a selection of the range followed by one Backspace. A pure
/// insertion first moves the caret to its place. The inserted text is
/// committed as one piece.
pub open spec fn apply_edit_spec(
    actions: Seq<ActionView>,
    selection: TextRange,
    edit: EditView,
) -> (Seq<ActionView>, TextRange) {
    let start = edit.removed.spec_start();
    let end = edit.removed.spec_end();
    let (removed_actions, removed_selection) = if !edit.removed.spec_is_caret() {
        let removed_characters = (end - start) as nat;
        let pressed = if selection.spec_ordered() == edit.removed && !selection.spec_is_caret() {
            push_control_spec(actions, NativeTextControl::Backspace, 1)
        } else if selection.spec_is_caret() && selection.cursor == end {
            push_control_spec(actions, NativeTextControl::Backspace, removed_characters)
        } else if selection.spec_is_caret() && selection.cursor == start {
            push_control_spec(actions, NativeTextControl::Delete, removed_characters)
        } else {
            push_control_spec(
                navigation_spec(actions, selection, edit.removed),
                NativeTextControl::Backspace,
                1,
            )
        };
        (pressed, TextRange::spec_caret(start))
    } else if selection != TextRange::spec_caret(start) {
        (navigation_spec(actions, selection, TextRange::spec_caret(start)), TextRange::spec_caret(start))
    } else {
        (actions, selection)
    };
    if edit.inserted.len() > 0 {
        (
            removed_actions.push(ActionView::Commit(edit.inserted)),
            TextRange::spec_caret((start + edit.inserted.len()) as usize),
        )
    } else {
        (removed_actions, removed_selection)
    }
}

/// Lemma: navigation between positions no greater than `bound` costs at most
/// `1 + 2 * bound` presses.
pub proof fn lemma_navigation_cost_bound(from: TextRange, to: TextRange, bound: nat)
    requires
        from.within(bound),
        to.within(bound),
    ensures
        navigation_cost(from, to) <= 1 + 2 * bound,
{
}

/// Lemma: carrying out an edit within positions no greater than `bound` adds at
/// most `2 + 2 * bound` presses.
pub proof fn lemma_apply_edit_total(
    actions: Seq<ActionView>,
    selection: TextRange,
    edit: EditView,
    bound: nat,
)
    requires
        selection.within(bound),
        edit.removed.within(bound),
    ensures
        total_repeat(apply_edit_spec(actions, selection, edit).0) <= total_repeat(actions) + 2 + 2
            * bound,
{
    let start = edit.removed.spec_start();
    let end = edit.removed.spec_end();
    let n = (end - start) as nat;
    lemma_push_control_total(actions, NativeTextControl::Backspace, 1);
    lemma_push_control_total(actions, NativeTextControl::Backspace, n);
    lemma_push_control_total(actions, NativeTextControl::Delete, n);
    lemma_navigation_total(actions, selection, edit.removed);
    lemma_navigation_cost_bound(selection, edit.removed, bound);
    lemma_push_control_total(
        navigation_spec(actions, selection, edit.removed),
        NativeTextControl::Backspace,
        1,
    );
    lemma_navigation_total(actions, selection, TextRange::spec_caret(start));
    lemma_navigation_cost_bound(selection, TextRange::spec_caret(start), bound);
    let (removed_actions, removed_selection) = if !edit.removed.spec_is_caret() {
        let pressed = if selection.spec_ordered() == edit.removed && !selection.spec_is_caret() {
            push_control_spec(actions, NativeTextControl::Backspace, 1)
        } else if selection.spec_is_caret() && selection.cursor == end {
            push_control_spec(actions, NativeTextControl::Backspace, n)
        } else if selection.spec_is_caret() && selection.cursor == start {
            push_control_spec(actions, NativeTextControl::Delete, n)
        } else {
            push_control_spec(
                navigation_spec(actions, selection, edit.removed),
                NativeTextControl::Backspace,
                1,
            )
        };
        (pressed, TextRange::spec_caret(start))
    } else if selection != TextRange::spec_caret(start) {
        (navigation_spec(actions, selection, TextRange::spec_caret(start)), TextRange::spec_caret(start))
    } else {
        (actions, selection)
    };
    if edit.inserted.len() > 0 {
        let pushed = removed_actions.push(ActionView::Commit(edit.inserted));
        assert(pushed.drop_last() =~= removed_actions);
    }
}

fn apply_edit(actions: &mut Vec<TextInputAction>, selection: TextRange, edit: TextEdit) -> (result:
    TextRange)
    requires
        total_repeat(actions_view(old(actions)@)) == 0,
        selection.within(MAX_TEXT_CHARS as nat),
        edit@.removed.within(MAX_TEXT_CHARS as nat),
        edit@.removed.spec_start() + edit@.inserted.len() <= MAX_TEXT_CHARS,
    ensures
        (actions_view(final(actions)@), result) == apply_edit_spec(
            actions_view(old(actions)@),
            selection,
            edit@,
        ),
{
    let ghost start_actions = actions_view(actions@);
    let TextEdit { removed, inserted } = edit;
    let mut selection = selection;
    proof {
        lemma_navigation_total(start_actions, selection, removed);
        lemma_navigation_cost_bound(selection, removed, MAX_TEXT_CHARS as nat);
        lemma_navigation_total(start_actions, selection, TextRange::spec_caret(removed.spec_start()));
        lemma_navigation_cost_bound(
            selection,
            TextRange::spec_caret(removed.spec_start()),
            MAX_TEXT_CHARS as nat,
        );
        lemma_push_control_total(
            navigation_spec(start_actions, selection, removed),
            NativeTextControl::Backspace,
            1,
        );
    }
    if !removed.is_caret() {
        let removed_characters = removed.end() - removed.start();
        if selection.ordered() == removed && !selection.is_caret() {
            push_control(actions, NativeTextControl::Backspace, 1);
        } else if selection.is_caret() && selection.cursor == removed.end() {
            push_control(actions, NativeTextControl::Backspace, removed_characters);
        } else if selection.is_caret() && selection.cursor == removed.start() {
            push_control(actions, NativeTextControl::Delete, removed_characters);
        } else {
            append_navigation(actions, selection, removed);
            push_control(actions, NativeTextControl::Backspace, 1);
        }
        selection = TextRange::caret(removed.start());
    } else if selection != TextRange::caret(removed.start()) {
        append_navigation(actions, selection, TextRange::caret(removed.start()));
        selection = TextRange::caret(removed.start());
    }
    if inserted.len() > 0 {
        let insertion_end = removed.start() + inserted.len();
        let text = string_from_chars(&inserted, 0, inserted.len());
        assert(text@ =~= inserted@);
        let ghost before = actions@;
        let action = TextInputAction::Commit(text);
        actions.push(action);
        proof {
            lemma_actions_view_push(before, action);
        }
        selection = TextRange::caret(insertion_end);
    }
    selection
}

/// Whether the composition shown so far has to be cleared: it exists, and the
/// committed text changed or the composition moved or ended.
pub open spec fn clears_composition(
    previous_start: Option<usize>,
    edited: bool,
    current_start: Option<usize>,
) -> bool {
    previous_start is Some && (edited || previous_start != current_start)
}

/// First stage of `handle_spec`: clearing an abandoned composition, which
/// leaves the caret where it was inserted, then carrying out the edit of the
/// committed text. Gives the actions so far and the selection afterwards.
pub open spec fn edit_stage(machine: MachineView, clear: bool, edit: Option<EditView>) -> (
    Seq<ActionView>,
    TextRange,
) {
    let cleared: Seq<ActionView> = if clear {
        seq![ActionView::Preedit(Seq::empty(), None)]
    } else {
        Seq::empty()
    };
    let selection = if clear {
        TextRange::spec_caret(
            match machine.composition_start {
                Some(p) => p,
                None => 0,
            },
        )
    } else {
        machine.committed.selection
    };
    match edit {
        Some(e) => apply_edit_spec(cleared, selection, e),
        None => (cleared, selection),
    }
}

/// Last stage of `handle_spec`: with a composition, move the caret to where it
/// is inserted (when `navigate`) and show it; without one, move the selection
/// to `committed_selection`.
pub open spec fn finish_stage(
    actions: Seq<ActionView>,
    selection: TextRange,
    composition: Option<CompositionView>,
    committed_selection: TextRange,
    navigate: bool,
) -> Seq<ActionView> {
    match composition {
        Some(c) => {
            let moved = if navigate {
                navigation_spec(actions, selection, TextRange::spec_caret(c.insertion))
            } else {
                actions
            };
            moved.push(ActionView::Preedit(c.text, Some(c.cursor)))
        },
        None => navigation_spec(actions, selection, committed_selection),
    }
}

/// The actions that `handle` emits for `snapshot` when the state machine is in
/// state `machine`.
///
/// A composition that is abandoned (the committed text changed, or the
/// composition moved or ended) is cleared first with an empty preedit, which
/// leaves the caret where the composition was inserted. Then a change of the
/// committed text is carried out as one edit. Last, the caret moves to where
/// a new composition is inserted and the preedit is shown, or, without a
/// composition, the selection moves to the snapshot's selection.
pub open spec fn handle_spec(machine: MachineView, snapshot: SnapshotView) -> Seq<ActionView> {
    let parsed = parse_snapshot(snapshot);
    let edit = find_edit_spec(machine.committed, parsed.committed);
    let clear = clears_composition(
        machine.composition_start,
        edit is Some,
        composition_insertion(parsed.composition),
    );
    let (edited, selection) = edit_stage(machine, clear, edit);
    finish_stage(
        edited,
        selection,
        parsed.composition,
        parsed.committed.selection,
        clear || machine.composition_start is None,
    )
}

fn finish(
    actions: &mut Vec<TextInputAction>,
    selection: TextRange,
    composition: Option<Composition>,
    committed_selection: TextRange,
    navigate: bool,
)
    requires
        total_repeat(actions_view(old(actions)@)) <= 2 + 2 * MAX_TEXT_CHARS,
        selection.within(MAX_TEXT_CHARS as nat),
        committed_selection.within(MAX_TEXT_CHARS as nat),
        composition matches Some(c) ==> c.insertion <= MAX_TEXT_CHARS,
    ensures
        actions_view(final(actions)@) == finish_stage(
            actions_view(old(actions)@),
            selection,
            match composition {
                Some(c) => Some(c@),
                None => None,
            },
            committed_selection,
            navigate,
        ),
{
    if let Some(composition) = composition {
        if navigate {
            proof {
                lemma_navigation_cost_bound(
                    selection,
                    TextRange::spec_caret(composition.insertion),
                    MAX_TEXT_CHARS as nat,
                );
            }
            append_navigation(actions, selection, TextRange::caret(composition.insertion));
        }
        let ghost before = actions@;
        let Composition { text, cursor, insertion: _ } = composition;
        let action = TextInputAction::Preedit(text, Some((cursor.anchor, cursor.cursor)));
        actions.push(action);
        proof {
            lemma_actions_view_push(before, action);
        }
    } else {
        proof {
            lemma_navigation_cost_bound(selection, committed_selection, MAX_TEXT_CHARS as nat);
        }
        append_navigation(actions, selection, committed_selection);
    }
}

impl TextInputStateMachine {
    /// Forgets the previous snapshot and takes `snapshot` as the current state of
    /// the text field, without emitting any action.
    pub fn reset(&mut self, snapshot: TextInputSnapshot)
        ensures
            final(self)@ == machine_after(snapshot@),
    {
        let parsed = parse_input(snapshot);
        proof {
            lemma_parse_snapshot_wf(snapshot@);
        }
        let ParsedInput { committed, composition } = parsed;
        let composition_start = match composition {
            Some(c) => Some(c.insertion),
            None => None,
        };
        *self = TextInputStateMachine { committed, composition_start };
    }

    /// Emits the actions that take the text field from the previous snapshot to
    /// `snapshot`, and remembers `snapshot`.
    pub fn handle(&mut self, snapshot: TextInputSnapshot) -> (actions: Vec<TextInputAction>)
        ensures
            old(self)@.wf(),
            snapshot@.wf(),
            actions_view(actions@) == handle_spec(old(self)@, snapshot@),
            final(self)@ == machine_after(snapshot@),
    {
        proof {
            use_type_invariant(&*self);
            use_type_invariant(&snapshot);
            lemma_parse_snapshot_wf(snapshot@);
        }
        let ghost machine = self@;
        let parsed = parse_input(snapshot);
        let edit = find_edit(&self.committed, &parsed.committed);
        proof {
            lemma_find_edit(machine.committed, parsed@.committed);
        }
        let current_composition_start = match &parsed.composition {
            Some(c) => Some(c.insertion),
            None => None,
        };
        let composition_moved = match (self.composition_start, current_composition_start) {
            (Some(a), Some(b)) => a != b,
            (None, None) => false,
            _ => true,
        };
        let clear_composition = self.composition_start.is_some() && (edit.is_some()
            || composition_moved);
        let mut actions: Vec<TextInputAction> = Vec::new();
        let mut resulting_selection = self.committed.selection;
        if clear_composition {
            let action = TextInputAction::Preedit(String::new(), None);
            actions.push(action);
            let position = match self.composition_start {
                Some(p) => p,
                None => 0,
            };
            resulting_selection = TextRange::caret(position);
        }
        proof {
            let cleared = actions_view(actions@);
            assert(total_repeat(Seq::<ActionView>::empty()) == 0);
            if clear_composition {
                assert(cleared =~= seq![ActionView::Preedit(Seq::empty(), None)]);
                assert(cleared.drop_last() =~= Seq::<ActionView>::empty());
                assert(last_repeat(cleared) == 0);
            } else {
                assert(cleared =~= Seq::<ActionView>::empty());
            }
            assert(total_repeat(cleared) == 0);
        }
        let ghost cleared = actions_view(actions@);
        let ghost selection_before_edit = resulting_selection;
        if let Some(edit) = edit {
            resulting_selection = apply_edit(&mut actions, resulting_selection, edit);
            proof {
                lemma_apply_edit_total(
                    cleared,
                    selection_before_edit,
                    edit@,
                    MAX_TEXT_CHARS as nat,
                );
            }
        }
        let ParsedInput { committed, composition } = parsed;
        finish(
            &mut actions,
            resulting_selection,
            composition,
            committed.selection,
            clear_composition || self.composition_start.is_none(),
        );
        *self = TextInputStateMachine { committed, composition_start: current_composition_start };
        actions
    }
}

} // verus!
