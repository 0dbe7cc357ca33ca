//! Keys, and the command letters they stand for on any keyboard layout.

use vstd::prelude::*;

verus! {

/// A key press.
#[derive(Debug, Clone, Copy, PartialEq, Eq, Structural)]
pub enum Key {
    Char(char),
    Enter,
    Esc,
    Backspace,
    Tab,
    Up,
    Down,
    Left,
    Right,
    PageUp,
    PageDown,
    Home,
    End,
    /// Any other key.
    Other,
}

/// Positional mapping national-layout → QWERTY for *command* keys only.
/// Free-text input (the URL field) always receives the raw character.
pub open spec fn layout(c: char) -> Option<char> {
    if c == 'й' {
        Some('q')
    } else if c == 'ц' {
        Some('w')
    } else if c == 'у' {
        Some('e')
    } else if c == 'к' {
        Some('r')
    } else if c == 'е' {
        Some('t')
    } else if c == 'н' {
        Some('y')
    } else if c == 'г' {
        Some('u')
    } else if c == 'ш' {
        Some('i')
    } else if c == 'щ' {
        Some('o')
    } else if c == 'з' {
        Some('p')
    } else if c == 'ф' {
        Some('a')
    } else if c == 'ы' {
        Some('s')
    } else if c == 'в' {
        Some('d')
    } else if c == 'а' {
        Some('f')
    } else if c == 'п' {
        Some('g')
    } else if c == 'р' {
        Some('h')
    } else if c == 'о' {
        Some('j')
    } else if c == 'л' {
        Some('k')
    } else if c == 'д' {
        Some('l')
    } else if c == 'я' {
        Some('z')
    } else if c == 'ч' {
        Some('x')
    } else if c == 'с' {
        Some('c')
    } else if c == 'м' {
        Some('v')
    } else if c == 'и' {
        Some('b')
    } else if c == 'т' {
        Some('n')
    } else if c == 'ь' {
        Some('m')
    } else {
        None
    }
}

/// The command letter that a lower-case character stands for: ASCII for
/// itself, a letter of the national layout for the key it shares.
pub open spec fn letter(lower: char) -> Option<char> {
    if (lower as u32) < 128 {
        Some(lower)
    } else {
        layout(lower)
    }
}

pub fn command_letter(lower: char) -> (r: Option<char>)
    ensures
        r == letter(lower),
{
    if (lower as u32) < 128 {
        return Some(lower);
    }
    match lower {
        'й' => Some('q'),
        'ц' => Some('w'),
        'у' => Some('e'),
        'к' => Some('r'),
        'е' => Some('t'),
        'н' => Some('y'),
        'г' => Some('u'),
        'ш' => Some('i'),
        'щ' => Some('o'),
        'з' => Some('p'),
        'ф' => Some('a'),
        'ы' => Some('s'),
        'в' => Some('d'),
        'а' => Some('f'),
        'п' => Some('g'),
        'р' => Some('h'),
        'о' => Some('j'),
        'л' => Some('k'),
        'д' => Some('l'),
        'я' => Some('z'),
        'ч' => Some('x'),
        'с' => Some('c'),
        'м' => Some('v'),
        'и' => Some('b'),
        'т' => Some('n'),
        'ь' => Some('m'),
        _ => None,
    }
}

/// The first character of the lower-case mapping of a character, as
/// `char::to_lowercase` yields it.
pub uninterp spec fn lowered(c: char) -> char;

/// `char::to_lowercase`: the first character that the mapping yields (it
/// yields at least one). An ASCII capital maps to its small letter, any other
/// ASCII character to itself; so do the Cyrillic letters from `А` to `Я` and
/// from `а` to `я`. Nothing else is said of the mapping.
#[verifier::external_body]
fn to_lower(c: char) -> (r: char)
    ensures
        r == lowered(c),
        'A' <= c <= 'Z' ==> r == (c as int + 32) as char,
        (c as u32) < 128 && !('A' <= c <= 'Z') ==> r == c,
        'А' <= c <= 'Я' ==> r == (c as int + 32) as char,
        'а' <= c <= 'я' ==> r == c,
{
    c.to_lowercase().next().unwrap_or(c)
}

/// The command letter of a key.
pub open spec fn command(key: Key) -> Option<char> {
    match key {
        Key::Char(c) => letter(lowered(c)),
        _ => None,
    }
}

/// What is known of a key's command letter whatever the mapping to lower case
/// does elsewhere: ASCII stands for itself, capitals for their small letters,
/// and a Cyrillic letter for the key it shares.
pub open spec fn folded(key: Key, cmd: Option<char>) -> bool {
    match key {
        Key::Char(c) => {
            &&& (c as u32) < 128 && !('A' <= c <= 'Z') ==> cmd == Some(c)
            &&& 'A' <= c <= 'Z' ==> cmd == Some((c as int + 32) as char)
            &&& 'а' <= c <= 'я' ==> cmd == layout(c)
            &&& 'А' <= c <= 'Я' ==> cmd == layout((c as int + 32) as char)
        },
        _ => cmd is None,
    }
}

/// Normalize a key event to the QWERTY command letter it represents,
/// regardless of the active keyboard layout. Uppercase is folded; ASCII
/// passes through unchanged. Characters without a positional counterpart
/// yield None so they never fire a command by accident.
pub fn command_char(key: Key) -> (r: Option<char>)
    ensures
        r == command(key),
        folded(key, r),
{
    match key {
        Key::Char(c) => command_letter(to_lower(c)),
        _ => None,
    }
}

/// The letters of the Russian layout stand for the Latin ones on the same keys,
/// one for one; no other character stands for another.
pub proof fn law_layouts_match_key_by_key(c: char, i: int)
    ensures
        0 <= i < 26 ==> layout("йцукенгшщзфывапролдячсмить"@[i]) == Some(
            "qwertyuiopasdfghjklzxcvbnm"@[i],
        ),
        layout(c) is Some ==> "йцукенгшщзфывапролдячсмить"@.contains(c),
{
    reveal_strlit("йцукенгшщзфывапролдячсмить");
    reveal_strlit("qwertyuiopasdfghjklzxcvbnm");
    if let Some(l) = layout(c) {
        let s = "йцукенгшщзфывапролдячсмить"@;
        assert(s[0] == c || s[1] == c || s[2] == c || s[3] == c || s[4] == c || s[5] == c || s[6]
            == c || s[7] == c || s[8] == c || s[9] == c || s[10] == c || s[11] == c || s[12] == c
            || s[13] == c || s[14] == c || s[15] == c || s[16] == c || s[17] == c || s[18] == c
            || s[19] == c || s[20] == c || s[21] == c || s[22] == c || s[23] == c || s[24] == c
            || s[25] == c);
    }
}

/// A Latin letter is itself on any layout, and only a character is a command.
pub proof fn law_latin_letters_are_themselves(c: char, key: Key)
    ensures
        (c as u32) < 128 ==> letter(c) == Some(c),
        (c as u32) >= 128 ==> letter(c) == layout(c),
        !(key is Char) ==> command(key) is None,
{
}

} // verus!
