//! Mapping of Android key codes to the player's key descriptors.
//!
//! Android reports a key press with a key code (the `AKEYCODE_*` values of the
//! Android NDK, which `Keycode` in `android-activity` converts to and from
//! `u32`). The player identifies a key by what it produces (a named key or a
//! character) and where it sits on the keyboard.

use vstd::prelude::*;

verus! {

pub const KEYCODE_0: u32 = 7;
pub const KEYCODE_1: u32 = 8;
pub const KEYCODE_2: u32 = 9;
pub const KEYCODE_3: u32 = 10;
pub const KEYCODE_4: u32 = 11;
pub const KEYCODE_5: u32 = 12;
pub const KEYCODE_6: u32 = 13;
pub const KEYCODE_7: u32 = 14;
pub const KEYCODE_8: u32 = 15;
pub const KEYCODE_9: u32 = 16;
pub const KEYCODE_DPAD_UP: u32 = 19;
pub const KEYCODE_DPAD_DOWN: u32 = 20;
pub const KEYCODE_DPAD_LEFT: u32 = 21;
pub const KEYCODE_DPAD_RIGHT: u32 = 22;
pub const KEYCODE_A: u32 = 29;
pub const KEYCODE_B: u32 = 30;
pub const KEYCODE_C: u32 = 31;
pub const KEYCODE_D: u32 = 32;
pub const KEYCODE_E: u32 = 33;
pub const KEYCODE_F: u32 = 34;
pub const KEYCODE_G: u32 = 35;
pub const KEYCODE_H: u32 = 36;
pub const KEYCODE_I: u32 = 37;
pub const KEYCODE_J: u32 = 38;
pub const KEYCODE_K: u32 = 39;
pub const KEYCODE_L: u32 = 40;
pub const KEYCODE_M: u32 = 41;
pub const KEYCODE_N: u32 = 42;
pub const KEYCODE_O: u32 = 43;
pub const KEYCODE_P: u32 = 44;
pub const KEYCODE_Q: u32 = 45;
pub const KEYCODE_R: u32 = 46;
pub const KEYCODE_S: u32 = 47;
pub const KEYCODE_T: u32 = 48;
pub const KEYCODE_U: u32 = 49;
pub const KEYCODE_V: u32 = 50;
pub const KEYCODE_W: u32 = 51;
pub const KEYCODE_X: u32 = 52;
pub const KEYCODE_Y: u32 = 53;
pub const KEYCODE_Z: u32 = 54;
pub const KEYCODE_COMMA: u32 = 55;
pub const KEYCODE_PERIOD: u32 = 56;
pub const KEYCODE_ALT_LEFT: u32 = 57;
pub const KEYCODE_ALT_RIGHT: u32 = 58;
pub const KEYCODE_SHIFT_LEFT: u32 = 59;
pub const KEYCODE_SHIFT_RIGHT: u32 = 60;
pub const KEYCODE_TAB: u32 = 61;
pub const KEYCODE_SPACE: u32 = 62;
pub const KEYCODE_ENTER: u32 = 66;
pub const KEYCODE_DEL: u32 = 67;
pub const KEYCODE_GRAVE: u32 = 68;
pub const KEYCODE_MINUS: u32 = 69;
pub const KEYCODE_EQUALS: u32 = 70;
pub const KEYCODE_LEFT_BRACKET: u32 = 71;
pub const KEYCODE_RIGHT_BRACKET: u32 = 72;
pub const KEYCODE_BACKSLASH: u32 = 73;
pub const KEYCODE_SEMICOLON: u32 = 74;
pub const KEYCODE_APOSTROPHE: u32 = 75;
pub const KEYCODE_SLASH: u32 = 76;
pub const KEYCODE_PLUS: u32 = 81;
pub const KEYCODE_PAGE_UP: u32 = 92;
pub const KEYCODE_PAGE_DOWN: u32 = 93;
pub const KEYCODE_ESCAPE: u32 = 111;
pub const KEYCODE_FORWARD_DEL: u32 = 112;
pub const KEYCODE_CTRL_LEFT: u32 = 113;
pub const KEYCODE_CTRL_RIGHT: u32 = 114;
pub const KEYCODE_CAPS_LOCK: u32 = 115;
pub const KEYCODE_SCROLL_LOCK: u32 = 116;
pub const KEYCODE_META_LEFT: u32 = 117;
pub const KEYCODE_META_RIGHT: u32 = 118;
pub const KEYCODE_BREAK: u32 = 121;
pub const KEYCODE_MOVE_HOME: u32 = 122;
pub const KEYCODE_MOVE_END: u32 = 123;
pub const KEYCODE_INSERT: u32 = 124;
pub const KEYCODE_F1: u32 = 131;
pub const KEYCODE_F2: u32 = 132;
pub const KEYCODE_F3: u32 = 133;
pub const KEYCODE_F4: u32 = 134;
pub const KEYCODE_F5: u32 = 135;
pub const KEYCODE_F6: u32 = 136;
pub const KEYCODE_F7: u32 = 137;
pub const KEYCODE_F8: u32 = 138;
pub const KEYCODE_F9: u32 = 139;
pub const KEYCODE_F10: u32 = 140;
pub const KEYCODE_F11: u32 = 141;
pub const KEYCODE_F12: u32 = 142;
pub const KEYCODE_NUM_LOCK: u32 = 143;
pub const KEYCODE_NUMPAD_0: u32 = 144;
pub const KEYCODE_NUMPAD_1: u32 = 145;
pub const KEYCODE_NUMPAD_2: u32 = 146;
pub const KEYCODE_NUMPAD_3: u32 = 147;
pub const KEYCODE_NUMPAD_4: u32 = 148;
pub const KEYCODE_NUMPAD_5: u32 = 149;
pub const KEYCODE_NUMPAD_6: u32 = 150;
pub const KEYCODE_NUMPAD_7: u32 = 151;
pub const KEYCODE_NUMPAD_8: u32 = 152;
pub const KEYCODE_NUMPAD_9: u32 = 153;
pub const KEYCODE_NUMPAD_DIVIDE: u32 = 154;
pub const KEYCODE_NUMPAD_MULTIPLY: u32 = 155;
pub const KEYCODE_NUMPAD_SUBTRACT: u32 = 156;
pub const KEYCODE_NUMPAD_ADD: u32 = 157;
pub const KEYCODE_NUMPAD_DOT: u32 = 158;
pub const KEYCODE_NUMPAD_COMMA: u32 = 159;
pub const KEYCODE_NUMPAD_ENTER: u32 = 160;
pub const KEYCODE_NUMPAD_EQUALS: u32 = 161;
pub const KEYCODE_NUMPAD_LEFT_PAREN: u32 = 162;
pub const KEYCODE_NUMPAD_RIGHT_PAREN: u32 = 163;

/// A key that produces no character.
#[derive(Debug, Clone, Copy, PartialEq, Eq, Structural)]
pub enum NamedKey {
    ArrowUp,
    ArrowDown,
    ArrowLeft,
    ArrowRight,
    Alt,
    Shift,
    Tab,
    Enter,
    Backspace,
    PageUp,
    PageDown,
    Escape,
    Delete,
    Control,
    CapsLock,
    ScrollLock,
    Pause,
    Home,
    End,
    Insert,
    F1,
    F2,
    F3,
    F4,
    F5,
    F6,
    F7,
    F8,
    F9,
    F10,
    F11,
    F12,
    NumLock,
}

/// What a key produces.
#[derive(Debug, Clone, Copy, PartialEq, Eq, Structural)]
pub enum LogicalKey {
    Named(NamedKey),
    Character(char),
}

/// Where a key sits on the keyboard.
#[derive(Debug, Clone, Copy, PartialEq, Eq, Structural)]
pub enum KeyLocation {
    Standard,
    Left,
    Right,
    Numpad,
}

/// Which physical key was pressed; Android's scan codes are not used.
#[derive(Debug, Clone, Copy, PartialEq, Eq, Structural)]
pub enum PhysicalKey {
    Unknown,
}

/// A key press as the player sees it.
#[derive(Debug, Clone, Copy, PartialEq, Eq, Structural)]
pub struct KeyDescriptor {
    pub physical_key: PhysicalKey,
    pub logical_key: LogicalKey,
    pub key_location: KeyLocation,
}

/// The decimal digit `n` (below ten) as a character.
pub open spec fn digit(n: u32) -> char {
    (('0' as u32) + n) as char
}

/// Function key `F<n + 1>`, for `n` below twelve.
pub open spec fn function_key(n: u32) -> NamedKey {
    if n == 0 {
        NamedKey::F1
    } else if n == 1 {
        NamedKey::F2
    } else if n == 2 {
        NamedKey::F3
    } else if n == 3 {
        NamedKey::F4
    } else if n == 4 {
        NamedKey::F5
    } else if n == 5 {
        NamedKey::F6
    } else if n == 6 {
        NamedKey::F7
    } else if n == 7 {
        NamedKey::F8
    } else if n == 8 {
        NamedKey::F9
    } else if n == 9 {
        NamedKey::F10
    } else if n == 10 {
        NamedKey::F11
    } else {
        NamedKey::F12
    }
}

/// What the key with Android key code `key_code` produces, if the player knows
/// the key: digits (top row and numpad) give their digit, letters their lower
/// case letter, function keys `F1` to `F12` their named key, and a fixed set of
/// punctuation, navigation, editing and modifier keys their character or named
/// key. Meta keys and the numpad parentheses are not known.
pub open spec fn logical_key_for(key_code: u32) -> Option<LogicalKey> {
    if KEYCODE_0 <= key_code <= KEYCODE_9 {
        Some(LogicalKey::Character(digit((key_code - KEYCODE_0) as u32)))
    } else if KEYCODE_NUMPAD_0 <= key_code <= KEYCODE_NUMPAD_9 {
        Some(LogicalKey::Character(digit((key_code - KEYCODE_NUMPAD_0) as u32)))
    } else if KEYCODE_A <= key_code <= KEYCODE_Z {
        Some(LogicalKey::Character((('a' as u32) + (key_code - KEYCODE_A)) as char))
    } else if KEYCODE_F1 <= key_code <= KEYCODE_F12 {
        Some(LogicalKey::Named(function_key((key_code - KEYCODE_F1) as u32)))
    } else if key_code == KEYCODE_DPAD_UP {
        Some(LogicalKey::Named(NamedKey::ArrowUp))
    } else if key_code == KEYCODE_DPAD_DOWN {
        Some(LogicalKey::Named(NamedKey::ArrowDown))
    } else if key_code == KEYCODE_DPAD_LEFT {
        Some(LogicalKey::Named(NamedKey::ArrowLeft))
    } else if key_code == KEYCODE_DPAD_RIGHT {
        Some(LogicalKey::Named(NamedKey::ArrowRight))
    } else if key_code == KEYCODE_ALT_LEFT || key_code == KEYCODE_ALT_RIGHT {
        Some(LogicalKey::Named(NamedKey::Alt))
    } else if key_code == KEYCODE_SHIFT_LEFT || key_code == KEYCODE_SHIFT_RIGHT {
        Some(LogicalKey::Named(NamedKey::Shift))
    } else if key_code == KEYCODE_CTRL_LEFT || key_code == KEYCODE_CTRL_RIGHT {
        Some(LogicalKey::Named(NamedKey::Control))
    } else if key_code == KEYCODE_TAB {
        Some(LogicalKey::Named(NamedKey::Tab))
    } else if key_code == KEYCODE_ENTER || key_code == KEYCODE_NUMPAD_ENTER {
        Some(LogicalKey::Named(NamedKey::Enter))
    } else if key_code == KEYCODE_DEL {
        Some(LogicalKey::Named(NamedKey::Backspace))
    } else if key_code == KEYCODE_FORWARD_DEL {
        Some(LogicalKey::Named(NamedKey::Delete))
    } else if key_code == KEYCODE_PAGE_UP {
        Some(LogicalKey::Named(NamedKey::PageUp))
    } else if key_code == KEYCODE_PAGE_DOWN {
        Some(LogicalKey::Named(NamedKey::PageDown))
    } else if key_code == KEYCODE_ESCAPE {
        Some(LogicalKey::Named(NamedKey::Escape))
    } else if key_code == KEYCODE_CAPS_LOCK {
        Some(LogicalKey::Named(NamedKey::CapsLock))
    } else if key_code == KEYCODE_SCROLL_LOCK {
        Some(LogicalKey::Named(NamedKey::ScrollLock))
    } else if key_code == KEYCODE_BREAK {
        Some(LogicalKey::Named(NamedKey::Pause))
    } else if key_code == KEYCODE_MOVE_HOME {
        Some(LogicalKey::Named(NamedKey::Home))
    } else if key_code == KEYCODE_MOVE_END {
        Some(LogicalKey::Named(NamedKey::End))
    } else if key_code == KEYCODE_INSERT {
        Some(LogicalKey::Named(NamedKey::Insert))
    } else if key_code == KEYCODE_NUM_LOCK {
        Some(LogicalKey::Named(NamedKey::NumLock))
    } else if key_code == KEYCODE_COMMA || key_code == KEYCODE_NUMPAD_COMMA {
        Some(LogicalKey::Character(','))
    } else if key_code == KEYCODE_PERIOD || key_code == KEYCODE_NUMPAD_DOT {
        Some(LogicalKey::Character('.'))
    } else if key_code == KEYCODE_SPACE {
        Some(LogicalKey::Character(' '))
    } else if key_code == KEYCODE_GRAVE {
        Some(LogicalKey::Character('`'))
    } else if key_code == KEYCODE_MINUS || key_code == KEYCODE_NUMPAD_SUBTRACT {
        Some(LogicalKey::Character('-'))
    } else if key_code == KEYCODE_EQUALS || key_code == KEYCODE_NUMPAD_EQUALS {
        Some(LogicalKey::Character('='))
    } else if key_code == KEYCODE_LEFT_BRACKET {
        Some(LogicalKey::Character('['))
    } else if key_code == KEYCODE_RIGHT_BRACKET {
        Some(LogicalKey::Character(']'))
    } else if key_code == KEYCODE_BACKSLASH {
        Some(LogicalKey::Character('\\'))
    } else if key_code == KEYCODE_SEMICOLON {
        Some(LogicalKey::Character(';'))
    } else if key_code == KEYCODE_APOSTROPHE {
        Some(LogicalKey::Character('\''))
    } else if key_code == KEYCODE_SLASH || key_code == KEYCODE_NUMPAD_DIVIDE {
        Some(LogicalKey::Character('/'))
    } else if key_code == KEYCODE_PLUS || key_code == KEYCODE_NUMPAD_ADD {
        Some(LogicalKey::Character('+'))
    } else if key_code == KEYCODE_NUMPAD_MULTIPLY {
        Some(LogicalKey::Character('*'))
    } else {
        None
    }
}

/// Where the key with Android key code `key_code` sits: modifier keys on the
/// left or right, the numpad block (`NUM_LOCK` to the numpad parentheses), and
/// every other key on the standard block.
pub open spec fn key_location_for(key_code: u32) -> KeyLocation {
    if key_code == KEYCODE_ALT_LEFT || key_code == KEYCODE_SHIFT_LEFT || key_code
        == KEYCODE_CTRL_LEFT || key_code == KEYCODE_META_LEFT {
        KeyLocation::Left
    } else if key_code == KEYCODE_ALT_RIGHT || key_code == KEYCODE_SHIFT_RIGHT || key_code
        == KEYCODE_CTRL_RIGHT || key_code == KEYCODE_META_RIGHT {
        KeyLocation::Right
    } else if KEYCODE_NUM_LOCK <= key_code <= KEYCODE_NUMPAD_RIGHT_PAREN {
        KeyLocation::Numpad
    } else {
        KeyLocation::Standard
    }
}

fn logical_key(key_code: u32) -> (key: Option<LogicalKey>)
    ensures
        key == logical_key_for(key_code),
{
    match key_code {
        KEYCODE_DPAD_UP => Some(LogicalKey::Named(NamedKey::ArrowUp)),
        KEYCODE_DPAD_DOWN => Some(LogicalKey::Named(NamedKey::ArrowDown)),
        KEYCODE_DPAD_LEFT => Some(LogicalKey::Named(NamedKey::ArrowLeft)),
        KEYCODE_DPAD_RIGHT => Some(LogicalKey::Named(NamedKey::ArrowRight)),
        KEYCODE_0 => Some(LogicalKey::Character('0')),
        KEYCODE_1 => Some(LogicalKey::Character('1')),
        KEYCODE_2 => Some(LogicalKey::Character('2')),
        KEYCODE_3 => Some(LogicalKey::Character('3')),
        KEYCODE_4 => Some(LogicalKey::Character('4')),
        KEYCODE_5 => Some(LogicalKey::Character('5')),
        KEYCODE_6 => Some(LogicalKey::Character('6')),
        KEYCODE_7 => Some(LogicalKey::Character('7')),
        KEYCODE_8 => Some(LogicalKey::Character('8')),
        KEYCODE_9 => Some(LogicalKey::Character('9')),
        KEYCODE_A => Some(LogicalKey::Character('a')),
        KEYCODE_B => Some(LogicalKey::Character('b')),
        KEYCODE_C => Some(LogicalKey::Character('c')),
        KEYCODE_D => Some(LogicalKey::Character('d')),
        KEYCODE_E => Some(LogicalKey::Character('e')),
        KEYCODE_F => Some(LogicalKey::Character('f')),
        KEYCODE_G => Some(LogicalKey::Character('g')),
        KEYCODE_H => Some(LogicalKey::Character('h')),
        KEYCODE_I => Some(LogicalKey::Character('i')),
        KEYCODE_J => Some(LogicalKey::Character('j')),
        KEYCODE_K => Some(LogicalKey::Character('k')),
        KEYCODE_L => Some(LogicalKey::Character('l')),
        KEYCODE_M => Some(LogicalKey::Character('m')),
        KEYCODE_N => Some(LogicalKey::Character('n')),
        KEYCODE_O => Some(LogicalKey::Character('o')),
        KEYCODE_P => Some(LogicalKey::Character('p')),
        KEYCODE_Q => Some(LogicalKey::Character('q')),
        KEYCODE_R => Some(LogicalKey::Character('r')),
        KEYCODE_S => Some(LogicalKey::Character('s')),
        KEYCODE_T => Some(LogicalKey::Character('t')),
        KEYCODE_U => Some(LogicalKey::Character('u')),
        KEYCODE_V => Some(LogicalKey::Character('v')),
        KEYCODE_W => Some(LogicalKey::Character('w')),
        KEYCODE_X => Some(LogicalKey::Character('x')),
        KEYCODE_Y => Some(LogicalKey::Character('y')),
        KEYCODE_Z => Some(LogicalKey::Character('z')),
        KEYCODE_COMMA => Some(LogicalKey::Character(',')),
        KEYCODE_PERIOD => Some(LogicalKey::Character('.')),
        KEYCODE_ALT_LEFT => Some(LogicalKey::Named(NamedKey::Alt)),
        KEYCODE_ALT_RIGHT => Some(LogicalKey::Named(NamedKey::Alt)),
        KEYCODE_SHIFT_LEFT => Some(LogicalKey::Named(NamedKey::Shift)),
        KEYCODE_SHIFT_RIGHT => Some(LogicalKey::Named(NamedKey::Shift)),
        KEYCODE_TAB => Some(LogicalKey::Named(NamedKey::Tab)),
        KEYCODE_SPACE => Some(LogicalKey::Character(' ')),
        KEYCODE_ENTER => Some(LogicalKey::Named(NamedKey::Enter)),
        KEYCODE_DEL => Some(LogicalKey::Named(NamedKey::Backspace)),
        KEYCODE_GRAVE => Some(LogicalKey::Character('`')),
        KEYCODE_MINUS => Some(LogicalKey::Character('-')),
        KEYCODE_EQUALS => Some(LogicalKey::Character('=')),
        KEYCODE_LEFT_BRACKET => Some(LogicalKey::Character('[')),
        KEYCODE_RIGHT_BRACKET => Some(LogicalKey::Character(']')),
        KEYCODE_BACKSLASH => Some(LogicalKey::Character('\\')),
        KEYCODE_SEMICOLON => Some(LogicalKey::Character(';')),
        KEYCODE_APOSTROPHE => Some(LogicalKey::Character('\'')),
        KEYCODE_SLASH => Some(LogicalKey::Character('/')),
        KEYCODE_PLUS => Some(LogicalKey::Character('+')),
        KEYCODE_PAGE_UP => Some(LogicalKey::Named(NamedKey::PageUp)),
        KEYCODE_PAGE_DOWN => Some(LogicalKey::Named(NamedKey::PageDown)),
        KEYCODE_ESCAPE => Some(LogicalKey::Named(NamedKey::Escape)),
        KEYCODE_FORWARD_DEL => Some(LogicalKey::Named(NamedKey::Delete)),
        KEYCODE_CTRL_LEFT => Some(LogicalKey::Named(NamedKey::Control)),
        KEYCODE_CTRL_RIGHT => Some(LogicalKey::Named(NamedKey::Control)),
        KEYCODE_CAPS_LOCK => Some(LogicalKey::Named(NamedKey::CapsLock)),
        KEYCODE_SCROLL_LOCK => Some(LogicalKey::Named(NamedKey::ScrollLock)),
        KEYCODE_BREAK => Some(LogicalKey::Named(NamedKey::Pause)),
        KEYCODE_MOVE_HOME => Some(LogicalKey::Named(NamedKey::Home)),
        KEYCODE_MOVE_END => Some(LogicalKey::Named(NamedKey::End)),
        KEYCODE_INSERT => Some(LogicalKey::Named(NamedKey::Insert)),
        KEYCODE_F1 => Some(LogicalKey::Named(NamedKey::F1)),
        KEYCODE_F2 => Some(LogicalKey::Named(NamedKey::F2)),
        KEYCODE_F3 => Some(LogicalKey::Named(NamedKey::F3)),
        KEYCODE_F4 => Some(LogicalKey::Named(NamedKey::F4)),
        KEYCODE_F5 => Some(LogicalKey::Named(NamedKey::F5)),
        KEYCODE_F6 => Some(LogicalKey::Named(NamedKey::F6)),
        KEYCODE_F7 => Some(LogicalKey::Named(NamedKey::F7)),
        KEYCODE_F8 => Some(LogicalKey::Named(NamedKey::F8)),
        KEYCODE_F9 => Some(LogicalKey::Named(NamedKey::F9)),
        KEYCODE_F10 => Some(LogicalKey::Named(NamedKey::F10)),
        KEYCODE_F11 => Some(LogicalKey::Named(NamedKey::F11)),
        KEYCODE_F12 => Some(LogicalKey::Named(NamedKey::F12)),
        KEYCODE_NUM_LOCK => Some(LogicalKey::Named(NamedKey::NumLock)),
        KEYCODE_NUMPAD_0 => Some(LogicalKey::Character('0')),
        KEYCODE_NUMPAD_1 => Some(LogicalKey::Character('1')),
        KEYCODE_NUMPAD_2 => Some(LogicalKey::Character('2')),
        KEYCODE_NUMPAD_3 => Some(LogicalKey::Character('3')),
        KEYCODE_NUMPAD_4 => Some(LogicalKey::Character('4')),
        KEYCODE_NUMPAD_5 => Some(LogicalKey::Character('5')),
        KEYCODE_NUMPAD_6 => Some(LogicalKey::Character('6')),
        KEYCODE_NUMPAD_7 => Some(LogicalKey::Character('7')),
        KEYCODE_NUMPAD_8 => Some(LogicalKey::Character('8')),
        KEYCODE_NUMPAD_9 => Some(LogicalKey::Character('9')),
        KEYCODE_NUMPAD_DIVIDE => Some(LogicalKey::Character('/')),
        KEYCODE_NUMPAD_MULTIPLY => Some(LogicalKey::Character('*')),
        KEYCODE_NUMPAD_SUBTRACT => Some(LogicalKey::Character('-')),
        KEYCODE_NUMPAD_ADD => Some(LogicalKey::Character('+')),
        KEYCODE_NUMPAD_DOT => Some(LogicalKey::Character('.')),
        KEYCODE_NUMPAD_COMMA => Some(LogicalKey::Character(',')),
        KEYCODE_NUMPAD_ENTER => Some(LogicalKey::Named(NamedKey::Enter)),
        KEYCODE_NUMPAD_EQUALS => Some(LogicalKey::Character('=')),
        _ => None,
    }
}

fn key_location(key_code: u32) -> (location: KeyLocation)
    ensures
        location == key_location_for(key_code),
{
    match key_code {
        KEYCODE_ALT_LEFT | KEYCODE_SHIFT_LEFT | KEYCODE_CTRL_LEFT | KEYCODE_META_LEFT => {
            KeyLocation::Left
        },
        KEYCODE_ALT_RIGHT | KEYCODE_SHIFT_RIGHT | KEYCODE_CTRL_RIGHT | KEYCODE_META_RIGHT => {
            KeyLocation::Right
        },
        KEYCODE_NUM_LOCK | KEYCODE_NUMPAD_0 | KEYCODE_NUMPAD_1 | KEYCODE_NUMPAD_2 | KEYCODE_NUMPAD_3
        | KEYCODE_NUMPAD_4 | KEYCODE_NUMPAD_5 | KEYCODE_NUMPAD_6 | KEYCODE_NUMPAD_7
        | KEYCODE_NUMPAD_8 | KEYCODE_NUMPAD_9 | KEYCODE_NUMPAD_DIVIDE | KEYCODE_NUMPAD_MULTIPLY
        | KEYCODE_NUMPAD_SUBTRACT | KEYCODE_NUMPAD_ADD | KEYCODE_NUMPAD_DOT | KEYCODE_NUMPAD_COMMA
        | KEYCODE_NUMPAD_ENTER | KEYCODE_NUMPAD_EQUALS | KEYCODE_NUMPAD_LEFT_PAREN
        | KEYCODE_NUMPAD_RIGHT_PAREN => KeyLocation::Numpad,
        _ => KeyLocation::Standard,
    }
}

/// The player's descriptor of the key with Android key code `key_code`, or
/// `None` for a key that the player does not know.
pub fn android_key_event_to_ruffle_key_descriptor(key_code: u32) -> (descriptor: Option<
    KeyDescriptor,
>)
    ensures
        descriptor == match logical_key_for(key_code) {
            Some(logical_key) => Some(
                KeyDescriptor {
                    physical_key: PhysicalKey::Unknown,
                    logical_key,
                    key_location: key_location_for(key_code),
                },
            ),
            None => None,
        },
{
    let physical_key = PhysicalKey::Unknown;
    let logical_key = match logical_key(key_code) {
        Some(key) => key,
        None => return None,
    };
    let key_location = key_location(key_code);
    Some(KeyDescriptor { physical_key, logical_key, key_location })
}

/// Law: the left and right Alt, Shift and Control keys produce the same named
/// key, and differ only in their location.
pub proof fn law_modifier_sides(left: u32)
    requires
        left == KEYCODE_ALT_LEFT || left == KEYCODE_SHIFT_LEFT || left == KEYCODE_CTRL_LEFT,
    ensures
        logical_key_for(left) is Some,
        logical_key_for(left) == logical_key_for((left + 1) as u32),
        key_location_for(left) == KeyLocation::Left,
        key_location_for((left + 1) as u32) == KeyLocation::Right,
{
}

/// Law: a numpad digit produces the same character as the digit key of the top
/// row, and differs only in its location.
pub proof fn law_numpad_digits(d: u32)
    requires
        d < 10,
    ensures
        logical_key_for((KEYCODE_NUMPAD_0 + d) as u32) == Some(LogicalKey::Character(digit(d))),
        logical_key_for((KEYCODE_0 + d) as u32) == Some(LogicalKey::Character(digit(d))),
        key_location_for((KEYCODE_NUMPAD_0 + d) as u32) == KeyLocation::Numpad,
        key_location_for((KEYCODE_0 + d) as u32) == KeyLocation::Standard,
{
}

/// Law: each directional pad key gives the arrow of its own direction, on the
/// standard block.
pub proof fn law_directional_pad_arrows()
    ensures
        logical_key_for(19) == Some(LogicalKey::Named(NamedKey::ArrowUp)),
        logical_key_for(20) == Some(LogicalKey::Named(NamedKey::ArrowDown)),
        logical_key_for(21) == Some(LogicalKey::Named(NamedKey::ArrowLeft)),
        logical_key_for(22) == Some(LogicalKey::Named(NamedKey::ArrowRight)),
        key_location_for(19) == KeyLocation::Standard,
        key_location_for(20) == KeyLocation::Standard,
        key_location_for(21) == KeyLocation::Standard,
        key_location_for(22) == KeyLocation::Standard,
{
}

/// Law: every key of the numpad block, from Num Lock (143) to the numpad right
/// parenthesis (163), operator keys included, is located on the numpad; every
/// other known key that is not a left or right modifier is on the standard
/// block.
pub proof fn law_numpad_block(key_code: u32)
    ensures
        143 <= key_code <= 163 ==> key_location_for(key_code) == KeyLocation::Numpad,
        !(143 <= key_code <= 163) && key_code != 57 && key_code != 58 && key_code != 59
            && key_code != 60 && key_code != 113 && key_code != 114 && key_code != 117
            && key_code != 118 ==> key_location_for(key_code) == KeyLocation::Standard,
{
}

/// Law: the numpad operator keys give their operator character.
pub proof fn law_numpad_operators()
    ensures
        logical_key_for(154) == Some(LogicalKey::Character('/')),
        logical_key_for(155) == Some(LogicalKey::Character('*')),
        logical_key_for(156) == Some(LogicalKey::Character('-')),
        logical_key_for(157) == Some(LogicalKey::Character('+')),
        logical_key_for(158) == Some(LogicalKey::Character('.')),
        logical_key_for(159) == Some(LogicalKey::Character(',')),
        logical_key_for(160) == Some(LogicalKey::Named(NamedKey::Enter)),
        logical_key_for(161) == Some(LogicalKey::Character('=')),
{
}

/// Law: the named, punctuation and space keys of the standard block give the
/// key or character printed on them.
pub proof fn law_standard_block_keys()
    ensures
        logical_key_for(19) == Some(LogicalKey::Named(NamedKey::ArrowUp)),
        logical_key_for(20) == Some(LogicalKey::Named(NamedKey::ArrowDown)),
        logical_key_for(21) == Some(LogicalKey::Named(NamedKey::ArrowLeft)),
        logical_key_for(22) == Some(LogicalKey::Named(NamedKey::ArrowRight)),
        logical_key_for(55) == Some(LogicalKey::Character(',')),
        logical_key_for(56) == Some(LogicalKey::Character('.')),
        logical_key_for(57) == Some(LogicalKey::Named(NamedKey::Alt)),
        logical_key_for(58) == Some(LogicalKey::Named(NamedKey::Alt)),
        logical_key_for(59) == Some(LogicalKey::Named(NamedKey::Shift)),
        logical_key_for(60) == Some(LogicalKey::Named(NamedKey::Shift)),
        logical_key_for(61) == Some(LogicalKey::Named(NamedKey::Tab)),
        logical_key_for(62) == Some(LogicalKey::Character(' ')),
        logical_key_for(66) == Some(LogicalKey::Named(NamedKey::Enter)),
        logical_key_for(67) == Some(LogicalKey::Named(NamedKey::Backspace)),
        logical_key_for(68) == Some(LogicalKey::Character('`')),
        logical_key_for(69) == Some(LogicalKey::Character('-')),
        logical_key_for(70) == Some(LogicalKey::Character('=')),
        logical_key_for(71) == Some(LogicalKey::Character('[')),
        logical_key_for(72) == Some(LogicalKey::Character(']')),
        logical_key_for(73) == Some(LogicalKey::Character('\\')),
        logical_key_for(74) == Some(LogicalKey::Character(';')),
        logical_key_for(75) == Some(LogicalKey::Character('\'')),
        logical_key_for(76) == Some(LogicalKey::Character('/')),
        logical_key_for(81) == Some(LogicalKey::Character('+')),
        logical_key_for(92) == Some(LogicalKey::Named(NamedKey::PageUp)),
        logical_key_for(93) == Some(LogicalKey::Named(NamedKey::PageDown)),
        logical_key_for(111) == Some(LogicalKey::Named(NamedKey::Escape)),
        logical_key_for(112) == Some(LogicalKey::Named(NamedKey::Delete)),
        logical_key_for(113) == Some(LogicalKey::Named(NamedKey::Control)),
        logical_key_for(114) == Some(LogicalKey::Named(NamedKey::Control)),
        logical_key_for(115) == Some(LogicalKey::Named(NamedKey::CapsLock)),
        logical_key_for(116) == Some(LogicalKey::Named(NamedKey::ScrollLock)),
        logical_key_for(121) == Some(LogicalKey::Named(NamedKey::Pause)),
        logical_key_for(122) == Some(LogicalKey::Named(NamedKey::Home)),
        logical_key_for(123) == Some(LogicalKey::Named(NamedKey::End)),
        logical_key_for(124) == Some(LogicalKey::Named(NamedKey::Insert)),
        logical_key_for(131) == Some(LogicalKey::Named(NamedKey::F1)),
        logical_key_for(132) == Some(LogicalKey::Named(NamedKey::F2)),
        logical_key_for(133) == Some(LogicalKey::Named(NamedKey::F3)),
        logical_key_for(134) == Some(LogicalKey::Named(NamedKey::F4)),
        logical_key_for(135) == Some(LogicalKey::Named(NamedKey::F5)),
        logical_key_for(136) == Some(LogicalKey::Named(NamedKey::F6)),
        logical_key_for(137) == Some(LogicalKey::Named(NamedKey::F7)),
        logical_key_for(138) == Some(LogicalKey::Named(NamedKey::F8)),
        logical_key_for(139) == Some(LogicalKey::Named(NamedKey::F9)),
        logical_key_for(140) == Some(LogicalKey::Named(NamedKey::F10)),
        logical_key_for(141) == Some(LogicalKey::Named(NamedKey::F11)),
        logical_key_for(142) == Some(LogicalKey::Named(NamedKey::F12)),
        logical_key_for(143) == Some(LogicalKey::Named(NamedKey::NumLock)),
{
}

/// Law: the letter keys, in key code order from 29, give `a` to `z`, and the
/// digit keys, from 7, give `0` to `9`: each next key code gives the next
/// character.
pub proof fn law_letters_and_digits(key_code: u32)
    ensures
        logical_key_for(29) == Some(LogicalKey::Character('a')),
        logical_key_for(54) == Some(LogicalKey::Character('z')),
        logical_key_for(7) == Some(LogicalKey::Character('0')),
        logical_key_for(16) == Some(LogicalKey::Character('9')),
        (29 <= key_code < 54 || 7 <= key_code < 16) ==> (logical_key_for(key_code) matches Some(
            LogicalKey::Character(c),
        ) && logical_key_for((key_code + 1) as u32) matches Some(LogicalKey::Character(d))
            && d as u32 == c as u32 + 1),
{
}

} // verus!
