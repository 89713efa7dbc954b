//! Keys as the key bindings name them: a key code with its modifiers, read
//! from a string like "Ctrl+c" and written back for display.

use vstd::prelude::*;
use vstd::string::StringExecFns;
use vstd::utf8::is_ascii_chars;

use crate::search::{ascii_lowercase, lowercase_of, to_lowercase};
use crate::text::char_of_ascii;
use crate::text_buf::{chars_of, push_char, string_of};

verus! {

/// A key, as the terminal reports it. Keys no binding can name are `Other`.
#[derive(Clone, Copy, Debug, PartialEq, Eq, Structural)]
pub enum KeyCode {
    Backspace,
    Enter,
    Left,
    Right,
    Up,
    Down,
    Home,
    End,
    PageUp,
    PageDown,
    Tab,
    Delete,
    F(u8),
    Char(char),
    Esc,
    Other,
}

/// The modifier keys held with a key: Shift, Control and Alt, which bindings
/// name, and the bits of any other modifier the terminal reports.
#[derive(Clone, Copy, Debug, PartialEq, Eq, Structural)]
pub struct KeyModifiers {
    pub shift: bool,
    pub control: bool,
    pub alt: bool,
    pub others: u8,
}

impl KeyModifiers {
    /// No modifier.
    pub fn none() -> (m: KeyModifiers)
        ensures
            m == no_modifiers(),
    {
        KeyModifiers { shift: false, control: false, alt: false, others: 0 }
    }

    /// Shift alone.
    pub fn shift_only() -> (m: KeyModifiers)
        ensures
            m == (KeyModifiers { shift: true, ..no_modifiers() }),
    {
        KeyModifiers { shift: true, control: false, alt: false, others: 0 }
    }

    /// Control alone.
    pub fn control_only() -> (m: KeyModifiers)
        ensures
            m == (KeyModifiers { control: true, ..no_modifiers() }),
    {
        KeyModifiers { shift: false, control: true, alt: false, others: 0 }
    }

    /// `self` with Shift toggled.
    pub fn toggled_shift(self) -> (m: KeyModifiers)
        ensures
            m == (KeyModifiers { shift: !self.shift, ..self }),
    {
        KeyModifiers { shift: !self.shift, ..self }
    }
}

/// No modifier.
pub open spec fn no_modifiers() -> KeyModifiers {
    KeyModifiers { shift: false, control: false, alt: false, others: 0 }
}

/// A key combination (key code + modifiers).
#[derive(Clone, Copy, Debug, PartialEq, Eq, Structural)]
pub struct KeyCombo {
    pub code: KeyCode,
    pub modifiers: KeyModifiers,
}

impl KeyCombo {
    pub fn new(code: KeyCode, modifiers: KeyModifiers) -> (combo: KeyCombo)
        ensures
            combo == (KeyCombo { code, modifiers }),
    {
        KeyCombo { code, modifiers }
    }

    pub fn code(&self) -> (code: KeyCode)
        ensures
            code == self.code,
    {
        self.code
    }

    pub fn modifiers(&self) -> (modifiers: KeyModifiers)
        ensures
            modifiers == self.modifiers,
    {
        self.modifiers
    }
}

/// `text` split at every `sep`: one more part than there are separators.
pub open spec fn split_at_char(text: Seq<char>, sep: char) -> Seq<Seq<char>>
    decreases text.len(),
{
    if text.len() == 0 {
        seq![Seq::empty()]
    } else {
        let front = split_at_char(text.drop_last(), sep);
        if text.last() == sep {
            front.push(Seq::empty())
        } else {
            front.update(front.len() - 1, front.last().push(text.last()))
        }
    }
}

/// A modifier's name as it is compared: in lowercase, by the ASCII mapping for
/// ASCII text and by the Unicode tables otherwise.
pub open spec fn folded(part: Seq<char>) -> Seq<char> {
    if is_ascii_chars(part) {
        ascii_lowercase(part)
    } else {
        lowercase_of(part)
    }
}

/// The modifiers named by `parts` (every part but the key), or the first part
/// that names none.
pub open spec fn parse_modifiers(parts: Seq<Seq<char>>) -> Result<KeyModifiers, Seq<char>>
    decreases parts.len(),
{
    if parts.len() == 0 {
        Ok(no_modifiers())
    } else {
        match parse_modifiers(parts.drop_last()) {
            Err(part) => Err(part),
            Ok(m) => {
                let name = folded(parts.last());
                if name == "ctrl"@ {
                    Ok(KeyModifiers { control: true, ..m })
                } else if name == "shift"@ {
                    Ok(KeyModifiers { shift: true, ..m })
                } else if name == "alt"@ {
                    Ok(KeyModifiers { alt: true, ..m })
                } else {
                    Err(parts.last())
                }
            },
        }
    }
}

/// The value of a run of decimal digits.
pub open spec fn digits_value(digits: Seq<char>) -> nat
    decreases digits.len(),
{
    if digits.len() == 0 {
        0
    } else {
        digits_value(digits.drop_last()) * 10 + ((digits.last() as u32) - ('0' as u32)) as nat
    }
}

/// Whether every character of `digits` is a decimal digit.
pub open spec fn all_digits(digits: Seq<char>) -> bool {
    forall|i: int| 0 <= i < digits.len() ==> '0' <= #[trigger] digits[i] <= '9'
}

/// `u8::from_str`: an optional `+`, then at least one decimal digit, for a
/// value below 256.
pub open spec fn parse_u8(text: Seq<char>) -> Option<u8> {
    let digits = if text.len() > 0 && text[0] == '+' { text.skip(1) } else { text };
    if digits.len() > 0 && all_digits(digits) && digits_value(digits) <= 255 {
        Some(digits_value(digits) as u8)
    } else {
        None
    }
}

/// The key codes that have a name.
pub open spec fn named_key(name: Seq<char>) -> Option<KeyCode> {
    if name == "Enter"@ || name == "Return"@ {
        Some(KeyCode::Enter)
    } else if name == "Esc"@ || name == "Escape"@ {
        Some(KeyCode::Esc)
    } else if name == "Backspace"@ {
        Some(KeyCode::Backspace)
    } else if name == "Delete"@ || name == "Del"@ {
        Some(KeyCode::Delete)
    } else if name == "Space"@ {
        Some(KeyCode::Char(' '))
    } else if name == "Tab"@ {
        Some(KeyCode::Tab)
    } else if name == "Up"@ {
        Some(KeyCode::Up)
    } else if name == "Down"@ {
        Some(KeyCode::Down)
    } else if name == "Left"@ {
        Some(KeyCode::Left)
    } else if name == "Right"@ {
        Some(KeyCode::Right)
    } else if name == "Home"@ {
        Some(KeyCode::Home)
    } else if name == "End"@ {
        Some(KeyCode::End)
    } else if name == "PgUp"@ || name == "PageUp"@ {
        Some(KeyCode::PageUp)
    } else if name == "PgDn"@ || name == "PageDown"@ {
        Some(KeyCode::PageDown)
    } else {
        None
    }
}

/// Why a key string was refused.
pub open spec fn unknown_modifier(part: Seq<char>) -> Seq<char> {
    "Unknown modifier: '"@ + part + "'"@
}

pub open spec fn invalid_f_key(key: Seq<char>) -> Seq<char> {
    "Invalid F-key: '"@ + key + "'"@
}

pub open spec fn unknown_key(key: Seq<char>) -> Seq<char> {
    "Unknown key: '"@ + key + "'"@
}

/// The key combination `text` names, like "q", "Ctrl+c", "Shift+G", "F5" or
/// "Enter": modifiers and a key joined by `+`. An uppercase ASCII letter
/// implies Shift.
pub open spec fn parsed_key_combo(text: Seq<char>) -> Result<KeyCombo, Seq<char>> {
    let parts = split_at_char(text, '+');
    let key = parts.last();
    match parse_modifiers(parts.drop_last()) {
        Err(part) => Err(unknown_modifier(part)),
        Ok(modifiers) => match named_key(key) {
            Some(code) => Ok(KeyCombo { code, modifiers }),
            None => if key.len() > 1 && key[0] == 'F' {
                match parse_u8(key.skip(1)) {
                    Some(n) => Ok(KeyCombo { code: KeyCode::F(n), modifiers }),
                    None => Err(invalid_f_key(key)),
                }
            } else if key.len() == 1 && (key[0] as u32) < 0x80 {
                let c = key[0];
                let shift = modifiers.shift || ('A' <= c && c <= 'Z');
                Ok(KeyCombo { code: KeyCode::Char(c), modifiers: KeyModifiers { shift, ..modifiers } })
            } else {
                Err(unknown_key(key))
            },
        },
    }
}

/// The texts of `parts`.
pub open spec fn texts(parts: Seq<Vec<char>>) -> Seq<Seq<char>> {
    parts.map_values(|p: Vec<char>| p@)
}

/// `text` split at every `sep`.
fn split_chars(text: &Vec<char>, sep: char) -> (parts: Vec<Vec<char>>)
    ensures
        texts(parts@) == split_at_char(text@, sep),
{
    let mut done: Vec<Vec<char>> = Vec::new();
    let mut current: Vec<char> = Vec::new();
    let mut i: usize = 0;
    while i < text.len()
        invariant
            i <= text@.len(),
            texts(done@).push(current@) == split_at_char(text@.take(i as int), sep),
        decreases text@.len() - i,
    {
        let c = text[i];
        let ghost front = texts(done@).push(current@);
        assert(text@.take(i + 1).drop_last() == text@.take(i as int));
        assert(text@.take(i + 1).last() == c);
        if c == sep {
            let finished = current;
            done.push(finished);
            current = Vec::new();
            assert(texts(done@) == front);
        } else {
            current.push(c);
            assert(texts(done@).push(current@) =~= front.update(
                front.len() - 1,
                front.last().push(c),
            ));
        }
        i = i + 1;
    }
    assert(text@.take(text@.len() as int) == text@);
    done.push(current);
    done
}

/// Whether `a` holds the characters of `b`.
fn chars_are(a: &Vec<char>, b: &str) -> (r: bool)
    ensures
        r == (a@ == b@),
{
    let text = string_of(a.as_slice());
    crate::args::str_eq(text.as_str(), b)
}

/// `part` folded as `folded` says.
fn fold_part(part: &Vec<char>) -> (f: String)
    ensures
        f@ == folded(part@),
{
    let text = string_of(part.as_slice());
    to_lowercase(text.as_str())
}

/// The modifiers named by all of `parts` but the last.
fn modifiers_of(parts: &Vec<Vec<char>>) -> (r: Result<KeyModifiers, Vec<char>>)
    requires
        parts@.len() >= 1,
    ensures
        match parse_modifiers(texts(parts@).drop_last()) {
            Ok(m) => r == Ok::<KeyModifiers, Vec<char>>(m),
            Err(part) => r matches Err(p) && p@ == part,
        },
{
    let mut m = KeyModifiers::none();
    let mut i: usize = 0;
    let count = parts.len() - 1;
    while i < count
        invariant
            count == parts@.len() - 1,
            i <= count,
            parse_modifiers(texts(parts@).take(i as int)) == Ok::<KeyModifiers, Seq<char>>(m),
        decreases count - i,
    {
        let ghost prefix = texts(parts@).take(i as int + 1);
        assert(prefix.drop_last() == texts(parts@).take(i as int));
        assert(prefix.last() == parts@[i as int]@);
        let name = fold_part(&parts[i]);
        if crate::args::str_eq(name.as_str(), "ctrl") {
            m = KeyModifiers { control: true, ..m };
        } else if crate::args::str_eq(name.as_str(), "shift") {
            m = KeyModifiers { shift: true, ..m };
        } else if crate::args::str_eq(name.as_str(), "alt") {
            m = KeyModifiers { alt: true, ..m };
        } else {
            assert(texts(parts@).drop_last().take(i as int + 1) == prefix);
            proof {
                lemma_modifiers_error_prefix(texts(parts@).drop_last(), i as int + 1);
            }
            return Err(parts[i].clone());
        }
        i = i + 1;
    }
    assert(texts(parts@).take(count as int) == texts(parts@).drop_last());
    Ok(m)
}

/// A part that names no modifier stops the parse whatever follows it.
proof fn lemma_modifiers_error_prefix(parts: Seq<Seq<char>>, n: int)
    requires
        0 <= n <= parts.len(),
        parse_modifiers(parts.take(n)) is Err,
    ensures
        parse_modifiers(parts) == parse_modifiers(parts.take(n)),
    decreases parts.len() - n,
{
    if n < parts.len() {
        assert(parts.take(n + 1).drop_last() == parts.take(n));
        assert(parse_modifiers(parts.take(n + 1)) == parse_modifiers(parts.take(n)));
        lemma_modifiers_error_prefix(parts, n + 1);
    } else {
        assert(parts.take(n) == parts);
    }
}

/// `u8::from_str` of `text`.
fn parse_u8_chars(text: &[char]) -> (r: Option<u8>)
    ensures
        r == parse_u8(text@),
{
    let start: usize = if text.len() > 0 && text[0] == '+' { 1 } else { 0 };
    let ghost digits = text@.skip(start as int);
    assert(digits == (if text@.len() > 0 && text@[0] == '+' { text@.skip(1) } else { text@ }));
    if start >= text.len() {
        return None;
    }
    let mut value: u32 = 0;
    let mut i: usize = start;
    while i < text.len()
        invariant
            start <= i <= text@.len(),
            digits == text@.skip(start as int),
            digits == (if text@.len() > 0 && text@[0] == '+' { text@.skip(1) } else { text@ }),
            all_digits(text@.subrange(start as int, i as int)),
            value == digits_value(text@.subrange(start as int, i as int)),
            value <= 255,
        decreases text@.len() - i,
    {
        let c = text[i];
        assert(text@.subrange(start as int, i + 1).drop_last() == text@.subrange(
            start as int,
            i as int,
        ));
        if !('0' <= c && c <= '9') {
            assert(!all_digits(digits)) by {
                assert(digits[i - start] == c);
            }
            assert(parse_u8(text@) is None);
            return None;
        }
        let d = c as u32 - '0' as u32;
        value = value * 10 + d;
        if value > 255 {
            proof {
                if all_digits(digits) {
                    lemma_digits_grow(digits, i - start + 1);
                    assert(digits.take(i - start + 1) == text@.subrange(start as int, i + 1));
                }
            }
            assert(parse_u8(text@) is None);
            return None;
        }
        i = i + 1;
    }
    assert(text@.subrange(start as int, text@.len() as int) == digits);
    Some(value as u8)
}

/// A longer run of digits is worth no less.
proof fn lemma_digits_grow(digits: Seq<char>, n: int)
    requires
        0 <= n <= digits.len(),
        all_digits(digits),
    ensures
        digits_value(digits) >= digits_value(digits.take(n)),
    decreases digits.len() - n,
{
    if n < digits.len() {
        lemma_digits_grow(digits, n + 1);
        assert(digits.take(n + 1).drop_last() == digits.take(n));
        assert('0' <= digits[n] <= '9');
    } else {
        assert(digits.take(n) == digits);
    }
}

/// The code a named key has.
fn named_key_code(name: &Vec<char>) -> (r: Option<KeyCode>)
    ensures
        r == named_key(name@),
{
    if chars_are(name, "Enter") || chars_are(name, "Return") {
        Some(KeyCode::Enter)
    } else if chars_are(name, "Esc") || chars_are(name, "Escape") {
        Some(KeyCode::Esc)
    } else if chars_are(name, "Backspace") {
        Some(KeyCode::Backspace)
    } else if chars_are(name, "Delete") || chars_are(name, "Del") {
        Some(KeyCode::Delete)
    } else if chars_are(name, "Space") {
        Some(KeyCode::Char(' '))
    } else if chars_are(name, "Tab") {
        Some(KeyCode::Tab)
    } else if chars_are(name, "Up") {
        Some(KeyCode::Up)
    } else if chars_are(name, "Down") {
        Some(KeyCode::Down)
    } else if chars_are(name, "Left") {
        Some(KeyCode::Left)
    } else if chars_are(name, "Right") {
        Some(KeyCode::Right)
    } else if chars_are(name, "Home") {
        Some(KeyCode::Home)
    } else if chars_are(name, "End") {
        Some(KeyCode::End)
    } else if chars_are(name, "PgUp") || chars_are(name, "PageUp") {
        Some(KeyCode::PageUp)
    } else if chars_are(name, "PgDn") || chars_are(name, "PageDown") {
        Some(KeyCode::PageDown)
    } else {
        None
    }
}

/// "`prefix``text`'".
fn quoted_message(prefix: &str, text: &Vec<char>) -> (m: String)
    ensures
        m@ == prefix@ + text@ + "'"@,
{
    let mut m = String::from_str(prefix);
    let t = string_of(text.as_slice());
    m.append(t.as_str());
    m.append("'");
    m
}

/// Parse a key string like "q", "Ctrl+c", "Shift+G", "F5", "Enter" into a KeyCombo.
pub fn parse_key_combo(s: &str) -> (r: Result<KeyCombo, String>)
    ensures
        match parsed_key_combo(s@) {
            Ok(combo) => r == Ok::<KeyCombo, String>(combo),
            Err(message) => r matches Err(m) && m@ == message,
        },
{
    let text = chars_of(s);
    let parts = split_chars(&text, '+');
    let ghost spec_parts = split_at_char(s@, '+');
    proof {
        lemma_split_nonempty(s@, '+');
    }
    let modifiers = match modifiers_of(&parts) {
        Ok(m) => m,
        Err(part) => return Err(quoted_message("Unknown modifier: '", &part)),
    };
    let key = &parts[parts.len() - 1];
    assert(key@ == spec_parts.last());
    if let Some(code) = named_key_code(key) {
        return Ok(KeyCombo { code, modifiers });
    }
    if key.len() > 1 && key[0] == 'F' {
        let digits = key.as_slice().split_at(1).1;
        assert(digits@ == key@.skip(1));
        return match parse_u8_chars(digits) {
            Some(n) => Ok(KeyCombo { code: KeyCode::F(n), modifiers }),
            None => Err(quoted_message("Invalid F-key: '", key)),
        };
    }
    if key.len() == 1 && (key[0] as u32) < 0x80 {
        let c = key[0];
        let shift = modifiers.shift || ('A' <= c && c <= 'Z');
        return Ok(KeyCombo { code: KeyCode::Char(c), modifiers: KeyModifiers { shift, ..modifiers } });
    }
    Err(quoted_message("Unknown key: '", key))
}

/// Splitting gives at least one part.
proof fn lemma_split_nonempty(text: Seq<char>, sep: char)
    ensures
        split_at_char(text, sep).len() >= 1,
    decreases text.len(),
{
    if text.len() > 0 {
        lemma_split_nonempty(text.drop_last(), sep);
    }
}

/// `n` in decimal, without leading zeros.
pub open spec fn decimal(n: nat) -> Seq<char>
    decreases n,
{
    if n < 10 {
        seq![(('0' as u32) + n) as char]
    } else {
        decimal(n / 10).push((('0' as u32) + (n % 10)) as char)
    }
}

/// How a key code is written for display.
pub open spec fn key_name(code: KeyCode) -> Seq<char> {
    match code {
        KeyCode::Char(' ') => "Space"@,
        KeyCode::Char(c) => seq![c],
        KeyCode::Enter => "Enter"@,
        KeyCode::Esc => "Esc"@,
        KeyCode::Backspace => "Backspace"@,
        KeyCode::Delete => "Delete"@,
        KeyCode::Tab => "Tab"@,
        KeyCode::Up => "↑"@,
        KeyCode::Down => "↓"@,
        KeyCode::Left => "←"@,
        KeyCode::Right => "→"@,
        KeyCode::Home => "Home"@,
        KeyCode::End => "End"@,
        KeyCode::PageUp => "PgUp"@,
        KeyCode::PageDown => "PgDn"@,
        KeyCode::F(n) => seq!['F'] + decimal(n as nat),
        KeyCode::Other => "?"@,
    }
}

/// How a key combination is written for display: "Ctrl+", "Alt+" and, for a
/// key that is not a character (an uppercase character implies it), "Shift+",
/// then the key.
pub open spec fn formatted_combo(combo: KeyCombo) -> Seq<char> {
    let ctrl = if combo.modifiers.control { "Ctrl+"@ } else { Seq::empty() };
    let alt = if combo.modifiers.alt { "Alt+"@ } else { Seq::empty() };
    let shift = if combo.modifiers.shift && !(combo.code is Char) {
        "Shift+"@
    } else {
        Seq::empty()
    };
    ctrl + alt + shift + key_name(combo.code)
}

/// Appends `n` in decimal.
fn push_decimal(out: &mut Vec<char>, n: u8)
    ensures
        final(out)@ == old(out)@ + decimal(n as nat),
    decreases n,
{
    if n >= 10 {
        push_decimal(out, n / 10);
    }
    out.push(char_of_ascii(0x30 + n % 10));
}

/// Format a KeyCombo into a human-readable display string.
pub fn format_key_combo(combo: &KeyCombo) -> (text: String)
    ensures
        text@ == formatted_combo(*combo),
{
    let mut prefix = String::new();
    if combo.modifiers.control {
        prefix.append("Ctrl+");
    }
    if combo.modifiers.alt {
        prefix.append("Alt+");
    }
    let is_char = match combo.code {
        KeyCode::Char(_) => true,
        _ => false,
    };
    if combo.modifiers.shift && !is_char {
        prefix.append("Shift+");
    }
    match combo.code {
        KeyCode::Char(' ') => prefix.append("Space"),
        KeyCode::Char(c) => push_char(&mut prefix, c),
        KeyCode::Enter => prefix.append("Enter"),
        KeyCode::Esc => prefix.append("Esc"),
        KeyCode::Backspace => prefix.append("Backspace"),
        KeyCode::Delete => prefix.append("Delete"),
        KeyCode::Tab => prefix.append("Tab"),
        KeyCode::Up => prefix.append("↑"),
        KeyCode::Down => prefix.append("↓"),
        KeyCode::Left => prefix.append("←"),
        KeyCode::Right => prefix.append("→"),
        KeyCode::Home => prefix.append("Home"),
        KeyCode::End => prefix.append("End"),
        KeyCode::PageUp => prefix.append("PgUp"),
        KeyCode::PageDown => prefix.append("PgDn"),
        KeyCode::F(n) => {
            let mut digits: Vec<char> = Vec::new();
            push_char(&mut prefix, 'F');
            push_decimal(&mut digits, n);
            let d = string_of(digits.as_slice());
            prefix.append(d.as_str());
        },
        KeyCode::Other => prefix.append("?"),
    }
    prefix
}

} // verus!
