//! The line that describes one context menu item to the Java side.
//!
//! The activity's `showContextMenu` receives one string per item: whether the
//! item is enabled, whether a separator precedes it, whether it is checked
//! (each as `true` or `false`), then its caption, separated by single spaces.

use vstd::prelude::*;

verus! {

/// `true` or `false`, as Rust formats a `bool`.
pub open spec fn bool_text(value: bool) -> Seq<char> {
    if value {
        seq!['t', 'r', 'u', 'e']
    } else {
        seq!['f', 'a', 'l', 's', 'e']
    }
}

/// The description of a context menu item.
pub open spec fn context_menu_item_line(
    enabled: bool,
    separator_before: bool,
    checked: bool,
    caption: Seq<char>,
) -> Seq<char> {
    bool_text(enabled) + seq![' '] + bool_text(separator_before) + seq![' '] + bool_text(checked)
        + seq![' '] + caption
}

fn push_bool(line: &mut String, value: bool)
    ensures
        final(line)@ == old(line)@ + bool_text(value),
{
    if value {
        line.push('t');
        line.push('r');
        line.push('u');
        line.push('e');
    } else {
        line.push('f');
        line.push('a');
        line.push('l');
        line.push('s');
        line.push('e');
    }
    assert(line@ =~= old(line)@ + bool_text(value));
}

/// Describes a context menu item for the Java side: its three flags and its
/// caption, separated by spaces.
pub fn context_menu_item_descriptor(
    enabled: bool,
    separator_before: bool,
    checked: bool,
    caption: &str,
) -> (line: String)
    ensures
        line@ == context_menu_item_line(enabled, separator_before, checked, caption@),
{
    let mut line = String::new();
    push_bool(&mut line, enabled);
    line.push(' ');
    push_bool(&mut line, separator_before);
    line.push(' ');
    push_bool(&mut line, checked);
    line.push(' ');
    let ghost prefix = line@;
    for c in it: caption.chars()
        invariant
            line@ == prefix + it.seq().take(it.index() as int),
    {
        line.push(c);
        assert(it.seq().take(it.index() + 1) =~= it.seq().take(it.index() as int).push(c));
    }
    assert(line@ =~= context_menu_item_line(enabled, separator_before, checked, caption@));
    line
}

/// Law: the line gives each flag in its own place, as its word: the first word
/// is `enabled`, the second `separator_before`, the third `checked`, each
/// `true` or `false` and followed by one space, and the caption ends the line
/// unchanged. The first character tells whether the item is enabled.
pub proof fn law_context_menu_line_fields(
    enabled: bool,
    separator_before: bool,
    checked: bool,
    caption: Seq<char>,
)
    ensures
        ({
            let line = context_menu_item_line(enabled, separator_before, checked, caption);
            let e: Seq<char> = if enabled {
                seq!['t', 'r', 'u', 'e', ' ']
            } else {
                seq!['f', 'a', 'l', 's', 'e', ' ']
            };
            let s: Seq<char> = if separator_before {
                seq!['t', 'r', 'u', 'e', ' ']
            } else {
                seq!['f', 'a', 'l', 's', 'e', ' ']
            };
            let c: Seq<char> = if checked {
                seq!['t', 'r', 'u', 'e', ' ']
            } else {
                seq!['f', 'a', 'l', 's', 'e', ' ']
            };
            &&& line == e + s + c + caption
            &&& (line[0] == 't') == enabled
            &&& line.skip(line.len() - caption.len()) == caption
        }),
{
    let line = context_menu_item_line(enabled, separator_before, checked, caption);
    let e: Seq<char> = if enabled {
        seq!['t', 'r', 'u', 'e', ' ']
    } else {
        seq!['f', 'a', 'l', 's', 'e', ' ']
    };
    let s: Seq<char> = if separator_before {
        seq!['t', 'r', 'u', 'e', ' ']
    } else {
        seq!['f', 'a', 'l', 's', 'e', ' ']
    };
    let c: Seq<char> = if checked {
        seq!['t', 'r', 'u', 'e', ' ']
    } else {
        seq!['f', 'a', 'l', 's', 'e', ' ']
    };
    assert(line =~= e + s + c + caption);
    assert(line.skip(line.len() - caption.len()) =~= caption);
}

} // verus!
