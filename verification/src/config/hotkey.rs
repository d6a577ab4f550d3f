//! The dictation hotkeys and the names of macOS virtual key codes.
use vstd::prelude::*;

use crate::text::push_char;

verus! {

/// A key that starts dictation.
#[derive(Debug, Clone, Copy, PartialEq, Eq, Structural)]
pub enum HotkeyTrigger {
    Option,
    CommandRight,
    F8,
    F9,
    F10,
    Custom(u16),
}

/// The hold-to-dictate and toggle hotkeys; either may be unset.
#[derive(Debug, Clone, Copy, PartialEq, Eq, Structural)]
pub struct HotkeyConfig {
    pub trigger: Option<HotkeyTrigger>,
    pub toggle_trigger: Option<HotkeyTrigger>,
}

/// The hold-to-dictate hotkey of a fresh configuration: F8.
pub fn default_hold_trigger() -> (r: Option<HotkeyTrigger>)
    ensures
        r == Some(HotkeyTrigger::F8),
{
    Some(HotkeyTrigger::F8)
}

impl Default for HotkeyConfig {
    /// Hold F8 to dictate; no toggle key.
    fn default() -> (r: HotkeyConfig)
        ensures
            r.trigger == Some(HotkeyTrigger::F8),
            r.toggle_trigger is None,
    {
        HotkeyConfig { trigger: default_hold_trigger(), toggle_trigger: None }
    }
}

/// The character of decimal digit `d`.
pub open spec fn digit_char(d: nat) -> char {
    if d == 0 {
        '0'
    } else if d == 1 {
        '1'
    } else if d == 2 {
        '2'
    } else if d == 3 {
        '3'
    } else if d == 4 {
        '4'
    } else if d == 5 {
        '5'
    } else if d == 6 {
        '6'
    } else if d == 7 {
        '7'
    } else if d == 8 {
        '8'
    } else {
        '9'
    }
}

/// The decimal representation of `n`, without leading zeros.
pub open spec fn decimal_digits(n: nat) -> Seq<char>
    decreases n,
{
    if n < 10 {
        seq![digit_char(n)]
    } else {
        decimal_digits(n / 10).push(digit_char(n % 10))
    }
}

fn digit(d: u64) -> (r: char)
    requires
        d < 10,
    ensures
        r == digit_char(d as nat),
{
    match d {
        0 => '0',
        1 => '1',
        2 => '2',
        3 => '3',
        4 => '4',
        5 => '5',
        6 => '6',
        7 => '7',
        8 => '8',
        _ => '9',
    }
}

/// Appends the decimal representation of `n` to `out`.
pub fn push_decimal(out: &mut String, n: u64)
    ensures
        final(out)@ == old(out)@ + decimal_digits(n as nat),
    decreases n,
{
    if n >= 10 {
        push_decimal(out, n / 10);
    }
    push_char(out, digit(n % 10));
    proof {
        if n >= 10 {
            assert(old(out)@ + decimal_digits(n as nat) =~= old(out)@ + decimal_digits((n / 10) as nat)
                + seq![digit_char((n % 10) as nat)]);
        } else {
            assert(decimal_digits(n as nat) =~= seq![digit_char((n % 10) as nat)]);
        }
    }
}

/// The name of macOS virtual key code `code`, for the keys Glide names.
pub open spec fn key_name(code: u16) -> Option<Seq<char>> {
    match code {
        0 => Some("A"@),
        1 => Some("S"@),
        2 => Some("D"@),
        3 => Some("F"@),
        4 => Some("H"@),
        5 => Some("G"@),
        6 => Some("Z"@),
        7 => Some("X"@),
        8 => Some("C"@),
        9 => Some("V"@),
        11 => Some("B"@),
        12 => Some("Q"@),
        13 => Some("W"@),
        14 => Some("E"@),
        15 => Some("R"@),
        16 => Some("Y"@),
        17 => Some("T"@),
        31 => Some("O"@),
        32 => Some("U"@),
        34 => Some("I"@),
        35 => Some("P"@),
        36 => Some("Return"@),
        37 => Some("L"@),
        38 => Some("J"@),
        40 => Some("K"@),
        45 => Some("N"@),
        46 => Some("M"@),
        49 => Some("Space"@),
        50 => Some("`"@),
        51 => Some("Delete"@),
        53 => Some("Escape"@),
        54 => Some("⌘ Right Cmd"@),
        55 => Some("⌘ Left Cmd"@),
        56 => Some("⇧ Left Shift"@),
        57 => Some("⇪ Caps Lock"@),
        58 => Some("⌥ Left Option"@),
        59 => Some("⌃ Left Ctrl"@),
        60 => Some("⇧ Right Shift"@),
        61 => Some("⌥ Right Option"@),
        62 => Some("⌃ Right Ctrl"@),
        63 => Some("Fn"@),
        96 => Some("F5"@),
        97 => Some("F6"@),
        98 => Some("F7"@),
        99 => Some("F3"@),
        100 => Some("F8"@),
        101 => Some("F9"@),
        103 => Some("F11"@),
        109 => Some("F10"@),
        111 => Some("F12"@),
        118 => Some("F4"@),
        120 => Some("F2"@),
        122 => Some("F1"@),
        _ => None,
    }
}

/// The label of key code `code`: its name, or `Key ` and the number.
pub open spec fn keycode_label_spec(code: u16) -> Seq<char> {
    match key_name(code) {
        Some(name) => name,
        None => "Key "@ + decimal_digits(code as nat),
    }
}

fn key_name_exec(code: u16) -> (r: Option<&'static str>)
    ensures
        match r {
            Some(s) => key_name(code) == Some(s@),
            None => key_name(code) is None,
        },
{
    match code {
        0 => Some("A"),
        1 => Some("S"),
        2 => Some("D"),
        3 => Some("F"),
        4 => Some("H"),
        5 => Some("G"),
        6 => Some("Z"),
        7 => Some("X"),
        8 => Some("C"),
        9 => Some("V"),
        11 => Some("B"),
        12 => Some("Q"),
        13 => Some("W"),
        14 => Some("E"),
        15 => Some("R"),
        16 => Some("Y"),
        17 => Some("T"),
        31 => Some("O"),
        32 => Some("U"),
        34 => Some("I"),
        35 => Some("P"),
        36 => Some("Return"),
        37 => Some("L"),
        38 => Some("J"),
        40 => Some("K"),
        45 => Some("N"),
        46 => Some("M"),
        49 => Some("Space"),
        50 => Some("`"),
        51 => Some("Delete"),
        53 => Some("Escape"),
        54 => Some("⌘ Right Cmd"),
        55 => Some("⌘ Left Cmd"),
        56 => Some("⇧ Left Shift"),
        57 => Some("⇪ Caps Lock"),
        58 => Some("⌥ Left Option"),
        59 => Some("⌃ Left Ctrl"),
        60 => Some("⇧ Right Shift"),
        61 => Some("⌥ Right Option"),
        62 => Some("⌃ Right Ctrl"),
        63 => Some("Fn"),
        96 => Some("F5"),
        97 => Some("F6"),
        98 => Some("F7"),
        99 => Some("F3"),
        100 => Some("F8"),
        101 => Some("F9"),
        103 => Some("F11"),
        109 => Some("F10"),
        111 => Some("F12"),
        118 => Some("F4"),
        120 => Some("F2"),
        122 => Some("F1"),
        _ => None,
    }
}

/// The label of key code `code`.
pub fn keycode_label(code: u16) -> (r: String)
    ensures
        r@ == keycode_label_spec(code),
{
    match key_name_exec(code) {
        Some(name) => String::from_str(name),
        None => {
            let mut out = String::from_str("Key ");
            push_decimal(&mut out, code as u64);
            out
        },
    }
}

/// The label of `t` as the settings show it.
pub open spec fn trigger_label(t: HotkeyTrigger) -> Seq<char> {
    match t {
        HotkeyTrigger::Option => "⌥ Option"@,
        HotkeyTrigger::CommandRight => "⌘ Right Cmd"@,
        HotkeyTrigger::F8 => "F8"@,
        HotkeyTrigger::F9 => "F9"@,
        HotkeyTrigger::F10 => "F10"@,
        HotkeyTrigger::Custom(code) => keycode_label_spec(code),
    }
}

/// The trigger for key code `code`: F8, F9 and F10 have their own variants.
pub open spec fn trigger_for_keycode(code: u16) -> HotkeyTrigger {
    if code == 100 {
        HotkeyTrigger::F8
    } else if code == 101 {
        HotkeyTrigger::F9
    } else if code == 109 {
        HotkeyTrigger::F10
    } else {
        HotkeyTrigger::Custom(code)
    }
}

impl HotkeyTrigger {
    pub fn label(self) -> (r: String)
        ensures
            r@ == trigger_label(self),
    {
        match self {
            HotkeyTrigger::Option => String::from_str("⌥ Option"),
            HotkeyTrigger::CommandRight => String::from_str("⌘ Right Cmd"),
            HotkeyTrigger::F8 => String::from_str("F8"),
            HotkeyTrigger::F9 => String::from_str("F9"),
            HotkeyTrigger::F10 => String::from_str("F10"),
            HotkeyTrigger::Custom(code) => keycode_label(code),
        }
    }

    pub fn from_keycode(code: u16) -> (r: HotkeyTrigger)
        ensures
            r == trigger_for_keycode(code),
    {
        match code {
            100 => HotkeyTrigger::F8,
            101 => HotkeyTrigger::F9,
            109 => HotkeyTrigger::F10,
            _ => HotkeyTrigger::Custom(code),
        }
    }
}

/// The modifier flag macOS reports while key `code` is held (0 for keys
/// that are no modifiers): Command, Shift, Option, Control, Caps Lock, Fn.
pub open spec fn modifier_flag(code: u16) -> u64 {
    if code == 54 || code == 55 {
        0x00100000
    } else if code == 56 || code == 60 {
        0x00020000
    } else if code == 58 || code == 61 {
        0x00080000
    } else if code == 59 || code == 62 {
        0x00040000
    } else if code == 57 {
        0x00010000
    } else if code == 63 {
        0x00800000
    } else {
        0
    }
}

/// The left and right keys of a modifier report the same flag, and each
/// modifier its own: Command (keys 54, 55) 0x100000, Shift (56, 60)
/// 0x20000, Option (58, 61) 0x80000, Control (59, 62) 0x40000, Caps Lock
/// (57) 0x10000 and Fn (63) 0x800000; every other key reports none.
pub proof fn law_modifier_keys_report_their_flag(code: u16)
    ensures
        modifier_flag(54) == 0x00100000 && modifier_flag(55) == 0x00100000,
        modifier_flag(56) == 0x00020000 && modifier_flag(60) == 0x00020000,
        modifier_flag(58) == 0x00080000 && modifier_flag(61) == 0x00080000,
        modifier_flag(59) == 0x00040000 && modifier_flag(62) == 0x00040000,
        modifier_flag(57) == 0x00010000,
        modifier_flag(63) == 0x00800000,
        !(54 <= code <= 63) ==> modifier_flag(code) == 0,
        (54 <= code <= 63) ==> modifier_flag(code) != 0,
{
}

pub fn modifier_flag_for_keycode(code: u16) -> (r: u64)
    ensures
        r == modifier_flag(code),
{
    match code {
        54 | 55 => 0x00100000,
        56 | 60 => 0x00020000,
        58 | 61 => 0x00080000,
        59 | 62 => 0x00040000,
        57 => 0x00010000,
        63 => 0x00800000,
        _ => 0,
    }
}

/// A key code's trigger shows the key's label: the trigger a recorded key
/// becomes is labelled as the key itself is.
pub proof fn law_trigger_label_matches_key(code: u16)
    ensures
        trigger_label(trigger_for_keycode(code)) == keycode_label_spec(code),
{
}

} // verus!
