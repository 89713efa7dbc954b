//! What holds of key strings across parsing and display.

use vstd::prelude::*;

use crate::keys::{
    all_digits, decimal, digits_value, folded, formatted_combo, key_name, named_key, parse_modifiers,
    parse_u8, parsed_key_combo, split_at_char, KeyCode, KeyCombo, KeyModifiers,
};
use crate::search::ascii_lowercase;
use vstd::utf8::is_ascii_chars;

verus! {

/// Whether the display of `c` is a key string that names `c` again: no
/// modifier beyond Shift, Control and Alt; not an arrow key, which is shown as
/// an arrow glyph that no key string names; and for a character key, one a
/// key string can hold, with Shift held exactly when it is an uppercase
/// letter, since the display leaves Shift out for a character.
pub open spec fn spells_back(c: KeyCombo) -> bool {
    &&& c.modifiers.others == 0
    &&& match c.code {
        KeyCode::Char(ch) => (ch == ' ' || ((ch as u32) < 0x80 && ch != '+')) && c.modifiers.shift
            == ('A' <= ch && ch <= 'Z'),
        KeyCode::Up | KeyCode::Down | KeyCode::Left | KeyCode::Right | KeyCode::Other => false,
        _ => true,
    }
}

/// Whether `t` holds no `sep`.
pub open spec fn free_of(t: Seq<char>, sep: char) -> bool {
    forall|i: int| 0 <= i < t.len() ==> t[i] != sep
}

proof fn lemma_split_len(t: Seq<char>, sep: char)
    ensures
        split_at_char(t, sep).len() >= 1,
    decreases t.len(),
{
    if t.len() > 0 {
        lemma_split_len(t.drop_last(), sep);
    }
}

proof fn lemma_split_plain(t: Seq<char>, sep: char)
    requires
        free_of(t, sep),
    ensures
        split_at_char(t, sep) == seq![t],
    decreases t.len(),
{
    if t.len() == 0 {
        assert(t =~= Seq::<char>::empty());
    } else {
        lemma_split_plain(t.drop_last(), sep);
        assert(t.drop_last().push(t.last()) =~= t);
        assert(seq![t.drop_last()].update(0, t.drop_last().push(t.last())) =~= seq![t]);
    }
}

proof fn lemma_split_join(x: Seq<char>, y: Seq<char>, sep: char)
    requires
        free_of(x, sep),
    ensures
        split_at_char(x + seq![sep] + y, sep) == seq![x] + split_at_char(y, sep),
    decreases y.len(),
{
    let w = x + seq![sep] + y;
    if y.len() == 0 {
        assert(w.drop_last() =~= x);
        lemma_split_plain(x, sep);
        assert(split_at_char(y, sep) == seq![Seq::<char>::empty()]);
        assert(seq![x].push(Seq::<char>::empty()) =~= seq![x] + seq![Seq::<char>::empty()]);
    } else {
        assert(w.drop_last() =~= x + seq![sep] + y.drop_last());
        assert(w.last() == y.last());
        lemma_split_join(x, y.drop_last(), sep);
        lemma_split_len(y.drop_last(), sep);
        let s = split_at_char(y.drop_last(), sep);
        if y.last() == sep {
            assert((seq![x] + s).push(Seq::<char>::empty()) =~= seq![x] + s.push(
                Seq::<char>::empty(),
            ));
        } else {
            let front = seq![x] + s;
            assert(front.update(front.len() - 1, front.last().push(y.last())) =~= seq![x]
                + s.update(s.len() - 1, s.last().push(y.last())));
        }
    }
}

/// A modifier's name with its `+`, in front of `rest`, splits off as one
/// part.
proof fn lemma_split_prefix(name_plus: Seq<char>, name: Seq<char>, rest: Seq<char>)
    requires
        name_plus == name + seq!['+'],
        free_of(name, '+'),
    ensures
        split_at_char(name_plus + rest, '+') == seq![name] + split_at_char(rest, '+'),
{
    assert(name_plus + rest =~= name + seq!['+'] + rest);
    lemma_split_join(name, rest, '+');
}

/// The names of the modifiers a display writes, in its order.
pub open spec fn modifier_parts(ctrl: bool, alt: bool, shift: bool) -> Seq<Seq<char>> {
    let p1 = if ctrl {
        seq!["Ctrl"@]
    } else {
        Seq::empty()
    };
    let p2 = if alt {
        p1.push("Alt"@)
    } else {
        p1
    };
    if shift {
        p2.push("Shift"@)
    } else {
        p2
    }
}

proof fn lemma_modifier_names()
    ensures
        folded("Ctrl"@) == "ctrl"@,
        folded("Alt"@) == "alt"@,
        folded("Shift"@) == "shift"@,
        "alt"@ != "ctrl"@,
        "alt"@ != "shift"@,
        "shift"@ != "ctrl"@,
        "Ctrl+"@ == "Ctrl"@ + seq!['+'],
        "Alt+"@ == "Alt"@ + seq!['+'],
        "Shift+"@ == "Shift"@ + seq!['+'],
        free_of("Ctrl"@, '+'),
        free_of("Alt"@, '+'),
        free_of("Shift"@, '+'),
{
    reveal_strlit("Ctrl");
    reveal_strlit("Alt");
    reveal_strlit("Shift");
    reveal_strlit("ctrl");
    reveal_strlit("alt");
    reveal_strlit("shift");
    reveal_strlit("Ctrl+");
    reveal_strlit("Alt+");
    reveal_strlit("Shift+");
    assert(is_ascii_chars("Ctrl"@));
    assert(is_ascii_chars("Alt"@));
    assert(is_ascii_chars("Shift"@));
    assert(ascii_lowercase("Ctrl"@) =~= "ctrl"@);
    assert(ascii_lowercase("Alt"@) =~= "alt"@);
    assert(ascii_lowercase("Shift"@) =~= "shift"@);
    assert("alt"@.len() != "ctrl"@.len());
    assert("alt"@.len() != "shift"@.len());
    assert("shift"@.len() != "ctrl"@.len());
    assert("Ctrl+"@ =~= "Ctrl"@ + seq!['+']);
    assert("Alt+"@ =~= "Alt"@ + seq!['+']);
    assert("Shift+"@ =~= "Shift"@ + seq!['+']);
}

proof fn lemma_parse_modifier_parts(ctrl: bool, alt: bool, shift: bool)
    ensures
        parse_modifiers(modifier_parts(ctrl, alt, shift)) == Ok::<KeyModifiers, Seq<char>>(
            KeyModifiers { shift, control: ctrl, alt, others: 0 },
        ),
{
    lemma_modifier_names();
    let e = Seq::<Seq<char>>::empty();
    let p1 = if ctrl {
        seq!["Ctrl"@]
    } else {
        e
    };
    let p2 = if alt {
        p1.push("Alt"@)
    } else {
        p1
    };
    let p3 = if shift {
        p2.push("Shift"@)
    } else {
        p2
    };
    let m1 = KeyModifiers { shift: false, control: ctrl, alt: false, others: 0 };
    let m2 = KeyModifiers { shift: false, control: ctrl, alt, others: 0 };
    assert(parse_modifiers(e) == Ok::<KeyModifiers, Seq<char>>(crate::keys::no_modifiers()));
    if ctrl {
        assert(seq!["Ctrl"@].drop_last() =~= e);
        assert(seq!["Ctrl"@].last() == "Ctrl"@);
    }
    assert(parse_modifiers(p1) == Ok::<KeyModifiers, Seq<char>>(m1));
    if alt {
        assert(p1.push("Alt"@).drop_last() =~= p1);
    }
    assert(parse_modifiers(p2) == Ok::<KeyModifiers, Seq<char>>(m2));
    if shift {
        assert(p2.push("Shift"@).drop_last() =~= p2);
    }
}

pub(crate) proof fn lemma_decimal_digits(n: nat)
    ensures
        decimal(n).len() >= 1,
        all_digits(decimal(n)),
        digits_value(decimal(n)) == n,
    decreases n,
{
    if n >= 10 {
        lemma_decimal_digits(n / 10);
        let d = decimal(n / 10);
        let c = (('0' as u32) + (n % 10)) as char;
        assert(decimal(n) == d.push(c));
        assert(d.push(c).drop_last() =~= d);
        assert(c as u32 == ('0' as u32) + (n % 10));
        assert(digits_value(d.push(c)) == digits_value(d) * 10 + ((c as u32) - ('0' as u32)) as nat);
        assert(n == (n / 10) * 10 + n % 10);
        assert(all_digits(d.push(c))) by {
            assert forall|i: int| 0 <= i < d.push(c).len() implies '0' <= #[trigger] d.push(c)[i]
                <= '9' by {
                if i < d.len() {
                    assert(d.push(c)[i] == d[i]);
                }
            }
        }
    } else {
        let c = (('0' as u32) + n) as char;
        assert(decimal(n) == seq![c]);
        assert(seq![c].drop_last() =~= Seq::<char>::empty());
        assert(c as u32 == ('0' as u32) + n);
        assert(digits_value(seq![c]) == digits_value(Seq::<char>::empty()) * 10 + ((c as u32) - ('0' as u32)) as nat);
    }
}

proof fn lemma_parse_decimal(n: u8)
    ensures
        parse_u8(decimal(n as nat)) == Some(n),
{
    lemma_decimal_digits(n as nat);
    let d = decimal(n as nat);
    assert('0' <= d[0] <= '9');
}

/// Every name the display gives a key, and that `named_key` knows.
proof fn lemma_key_names()
    ensures
        named_key("Enter"@) == Some(KeyCode::Enter),
        named_key("Esc"@) == Some(KeyCode::Esc),
        named_key("Backspace"@) == Some(KeyCode::Backspace),
        named_key("Delete"@) == Some(KeyCode::Delete),
        named_key("Space"@) == Some(KeyCode::Char(' ')),
        named_key("Tab"@) == Some(KeyCode::Tab),
        named_key("Home"@) == Some(KeyCode::Home),
        named_key("End"@) == Some(KeyCode::End),
        named_key("PgUp"@) == Some(KeyCode::PageUp),
        named_key("PgDn"@) == Some(KeyCode::PageDown),
        forall|c: char| named_key(seq![c]) is None,
        forall|d: Seq<char>| named_key(seq!['F'] + d) is None,
        free_of("Enter"@, '+'),
        free_of("Esc"@, '+'),
        free_of("Backspace"@, '+'),
        free_of("Delete"@, '+'),
        free_of("Space"@, '+'),
        free_of("Tab"@, '+'),
        free_of("Home"@, '+'),
        free_of("End"@, '+'),
        free_of("PgUp"@, '+'),
        free_of("PgDn"@, '+'),
{
    reveal_strlit("Enter");
    reveal_strlit("Return");
    reveal_strlit("Esc");
    reveal_strlit("Escape");
    reveal_strlit("Backspace");
    reveal_strlit("Delete");
    reveal_strlit("Del");
    reveal_strlit("Space");
    reveal_strlit("Tab");
    reveal_strlit("Up");
    reveal_strlit("Down");
    reveal_strlit("Left");
    reveal_strlit("Right");
    reveal_strlit("Home");
    reveal_strlit("End");
    reveal_strlit("PgUp");
    reveal_strlit("PageUp");
    reveal_strlit("PgDn");
    reveal_strlit("PageDown");
    assert("Enter"@.len() == 5 && "Return"@.len() == 6 && "Esc"@.len() == 3 && "Escape"@.len() == 6);
    assert("Backspace"@.len() == 9 && "Delete"@.len() == 6 && "Del"@.len() == 3 && "Space"@.len() == 5);
    assert("Tab"@.len() == 3 && "Up"@.len() == 2 && "Down"@.len() == 4 && "Left"@.len() == 4);
    assert("Right"@.len() == 5 && "Home"@.len() == 4 && "End"@.len() == 3 && "PgUp"@.len() == 4);
    assert("PageUp"@.len() == 6 && "PgDn"@.len() == 4 && "PageDown"@.len() == 8);
    assert("End"@ != "Enter"@ && "End"@ != "Return"@ && "End"@ != "Escape"@ && "End"@ != "Backspace"@
        && "End"@ != "Delete"@ && "End"@ != "Space"@ && "End"@ != "Up"@ && "End"@ != "Down"@
        && "End"@ != "Left"@ && "End"@ != "Right"@ && "End"@ != "Home"@);
    assert("PgUp"@ != "Enter"@ && "PgUp"@ != "Return"@ && "PgUp"@ != "Esc"@ && "PgUp"@ != "Escape"@
        && "PgUp"@ != "Backspace"@ && "PgUp"@ != "Delete"@ && "PgUp"@ != "Del"@ && "PgUp"@ != "Space"@
        && "PgUp"@ != "Tab"@ && "PgUp"@ != "Up"@ && "PgUp"@ != "Right"@ && "PgUp"@ != "End"@);
    assert("PgDn"@ != "Enter"@ && "PgDn"@ != "Return"@ && "PgDn"@ != "Esc"@ && "PgDn"@ != "Escape"@
        && "PgDn"@ != "Backspace"@ && "PgDn"@ != "Delete"@ && "PgDn"@ != "Del"@ && "PgDn"@ != "Space"@
        && "PgDn"@ != "Tab"@ && "PgDn"@ != "Up"@ && "PgDn"@ != "Right"@ && "PgDn"@ != "End"@
        && "PgDn"@ != "PageUp"@);
    assert("Esc"@ != "Enter"@ && "Esc"@ != "Return"@) by {
        assert("Esc"@.len() == 3 && "Enter"@.len() == 5 && "Return"@.len() == 6);
    }
    assert("Delete"@ != "Return"@ && "Delete"@ != "Escape"@) by {
        assert("Delete"@[0] != "Return"@[0] && "Delete"@[0] != "Escape"@[0]);
    }
    assert("Delete"@ != "Enter"@ && "Delete"@ != "Esc"@ && "Delete"@ != "Backspace"@) by {
        assert("Delete"@.len() == 6 && "Esc"@.len() == 3 && "Enter"@.len() == 5);
        assert("Backspace"@.len() == 9);
    }
    assert("Space"@ != "Enter"@) by {
        assert("Space"@[0] != "Enter"@[0]);
    }
    assert("Space"@ != "Return"@ && "Space"@ != "Esc"@ && "Space"@ != "Escape"@ && "Space"@
        != "Backspace"@ && "Space"@ != "Delete"@ && "Space"@ != "Del"@) by {
        assert("Space"@.len() == 5 && "Return"@.len() == 6 && "Esc"@.len() == 3);
        assert("Escape"@.len() == 6 && "Backspace"@.len() == 9 && "Delete"@.len() == 6);
        assert("Del"@.len() == 3);
    }
    assert("Tab"@ != "Enter"@ && "Tab"@ != "Return"@ && "Tab"@ != "Escape"@ && "Tab"@
        != "Backspace"@ && "Tab"@ != "Delete"@ && "Tab"@ != "Space"@) by {
        assert("Tab"@.len() == 3 && "Enter"@.len() == 5 && "Return"@.len() == 6);
        assert("Escape"@.len() == 6 && "Backspace"@.len() == 9 && "Delete"@.len() == 6);
        assert("Space"@.len() == 5);
    }
    assert("Home"@ != "Enter"@ && "Home"@ != "Return"@ && "Home"@ != "Esc"@ && "Home"@
        != "Escape"@ && "Home"@ != "Backspace"@ && "Home"@ != "Delete"@ && "Home"@ != "Del"@) by {
        assert("Home"@.len() == 4 && "Enter"@.len() == 5 && "Return"@.len() == 6);
        assert("Escape"@.len() == 6 && "Backspace"@.len() == 9 && "Delete"@.len() == 6);
        assert("Esc"@.len() == 3 && "Del"@.len() == 3);
    }
    assert("Home"@ != "Space"@ && "Home"@ != "Tab"@ && "Home"@ != "Up"@ && "Home"@ != "Right"@) by {
        assert("Home"@.len() == 4 && "Space"@.len() == 5 && "Tab"@.len() == 3);
        assert("Up"@.len() == 2 && "Right"@.len() == 5);
    }
    assert("Tab"@ != "Esc"@ && "Tab"@ != "Del"@) by {
        assert("Tab"@[0] != "Esc"@[0] && "Tab"@[0] != "Del"@[0]);
    }
    assert("Home"@ != "Down"@ && "Home"@ != "Left"@) by {
        assert("Home"@[0] != "Down"@[0] && "Home"@[0] != "Left"@[0]);
    }
    assert("End"@ != "Esc"@ && "End"@ != "Del"@ && "End"@ != "Tab"@) by {
        assert("End"@[1] != "Esc"@[1] && "End"@[0] != "Del"@[0] && "End"@[0] != "Tab"@[0]);
    }
    assert("PgUp"@ != "Down"@ && "PgUp"@ != "Left"@ && "PgUp"@ != "Home"@) by {
        assert("PgUp"@[0] != "Down"@[0] && "PgUp"@[0] != "Left"@[0] && "PgUp"@[0] != "Home"@[0]);
    }
    assert("PgDn"@ != "Down"@ && "PgDn"@ != "Left"@ && "PgDn"@ != "Home"@ && "PgDn"@ != "PgUp"@) by {
        assert("PgDn"@[0] != "Down"@[0] && "PgDn"@[0] != "Left"@[0] && "PgDn"@[0] != "Home"@[0]);
        assert("PgDn"@[2] != "PgUp"@[2]);
    }
    assert forall|d: Seq<char>| named_key(seq!['F'] + d) is None by {
        let k = seq!['F'] + d;
        assert(k[0] == 'F');
        assert(k != "Enter"@ && k != "Return"@ && k != "Esc"@ && k != "Escape"@) by {
            assert("Enter"@[0] != 'F' && "Return"@[0] != 'F' && "Esc"@[0] != 'F');
            assert("Escape"@[0] != 'F');
        }
        assert(k != "Backspace"@ && k != "Delete"@ && k != "Del"@ && k != "Space"@) by {
            assert("Backspace"@[0] != 'F' && "Delete"@[0] != 'F' && "Del"@[0] != 'F');
            assert("Space"@[0] != 'F');
        }
        assert(k != "Tab"@ && k != "Up"@ && k != "Down"@ && k != "Left"@) by {
            assert("Tab"@[0] != 'F' && "Up"@[0] != 'F' && "Down"@[0] != 'F');
            assert("Left"@[0] != 'F');
        }
        assert(k != "Right"@ && k != "Home"@ && k != "End"@ && k != "PgUp"@) by {
            assert("Right"@[0] != 'F' && "Home"@[0] != 'F' && "End"@[0] != 'F');
            assert("PgUp"@[0] != 'F');
        }
        assert(k != "PageUp"@ && k != "PgDn"@ && k != "PageDown"@) by {
            assert("PageUp"@[0] != 'F' && "PgDn"@[0] != 'F' && "PageDown"@[0] != 'F');
        }
    }
    assert forall|c: char| named_key(seq![c]) is None by {
        assert(seq![c].len() == 1);
    }
    assert(free_of("Enter"@, '+'));
    assert(free_of("Esc"@, '+'));
    assert(free_of("Backspace"@, '+'));
    assert(free_of("Delete"@, '+'));
    assert(free_of("Space"@, '+'));
    assert(free_of("Tab"@, '+'));
    assert(free_of("Home"@, '+'));
    assert(free_of("End"@, '+'));
    assert(free_of("PgUp"@, '+'));
    assert(free_of("PgDn"@, '+'));
}

/// The key part of a display parses back to the key: a named key to its
/// code, `F` with digits to the function key, and a character to itself with
/// Shift exactly when it is an uppercase letter.
proof fn lemma_key_part(c: KeyCombo, m: KeyModifiers)
    requires
        spells_back(c),
        m == (KeyModifiers {
            shift: c.modifiers.shift && !(c.code is Char),
            ..c.modifiers
        }),
    ensures
        free_of(key_name(c.code), '+'),
        ({
            let key = key_name(c.code);
            (match named_key(key) {
                Some(code) => Ok(KeyCombo { code, modifiers: m }),
                None => if key.len() > 1 && key[0] == 'F' {
                    match parse_u8(key.skip(1)) {
                        Some(n) => Ok(KeyCombo { code: KeyCode::F(n), modifiers: m }),
                        None => Err(crate::keys::invalid_f_key(key)),
                    }
                } else if key.len() == 1 && (key[0] as u32) < 0x80 {
                    let ch = key[0];
                    let shift = m.shift || ('A' <= ch && ch <= 'Z');
                    Ok(KeyCombo { code: KeyCode::Char(ch), modifiers: KeyModifiers { shift, ..m } })
                } else {
                    Err(crate::keys::unknown_key(key))
                },
            }) == Ok::<KeyCombo, Seq<char>>(c)
        }),
{
    lemma_key_names();
    match c.code {
        KeyCode::Char(ch) => {
            if ch == ' ' {
            } else {
                assert(key_name(c.code) == seq![ch]);
                assert(named_key(seq![ch]) is None);
            }
        },
        KeyCode::F(n) => {
            let d = decimal(n as nat);
            lemma_decimal_digits(n as nat);
            lemma_parse_decimal(n);
            let key = seq!['F'] + d;
            assert(key_name(c.code) == key);
            assert(named_key(key) is None);
            assert(key.skip(1) =~= d);
            assert(free_of(key, '+')) by {
                assert forall|i: int| 0 <= i < key.len() implies key[i] != '+' by {
                    if i > 0 {
                        assert(key[i] == d[i - 1]);
                        assert('0' <= d[i - 1] <= '9');
                    }
                }
            }
        },
        _ => {},
    }
}

/// A key combination written for display parses back to itself, wherever its
/// display is a key string that names it (`spells_back`).
pub proof fn display_parses_back(c: KeyCombo)
    requires
        spells_back(c),
    ensures
        parsed_key_combo(formatted_combo(c)) == Ok::<KeyCombo, Seq<char>>(c),
{
    lemma_modifier_names();
    lemma_key_part(
        c,
        KeyModifiers { shift: c.modifiers.shift && !(c.code is Char), ..c.modifiers },
    );
    let ctrl = c.modifiers.control;
    let alt = c.modifiers.alt;
    let shift = c.modifiers.shift && !(c.code is Char);
    let key = key_name(c.code);
    let s_ctrl = if ctrl {
        "Ctrl+"@
    } else {
        Seq::empty()
    };
    let s_alt = if alt {
        "Alt+"@
    } else {
        Seq::empty()
    };
    let s_shift = if shift {
        "Shift+"@
    } else {
        Seq::empty()
    };
    let r3 = s_shift + key;
    let r2 = s_alt + r3;
    let r1 = s_ctrl + r2;
    assert(formatted_combo(c) =~= r1);
    lemma_split_plain(key, '+');
    if shift {
        lemma_split_prefix("Shift+"@, "Shift"@, key);
    } else {
        assert(r3 =~= key);
    }
    let parts3 = if shift {
        seq!["Shift"@, key]
    } else {
        seq![key]
    };
    assert(split_at_char(r3, '+') =~= parts3);
    if alt {
        lemma_split_prefix("Alt+"@, "Alt"@, r3);
    } else {
        assert(r2 =~= r3);
    }
    let parts2 = if alt {
        seq!["Alt"@] + parts3
    } else {
        parts3
    };
    assert(split_at_char(r2, '+') =~= parts2);
    if ctrl {
        lemma_split_prefix("Ctrl+"@, "Ctrl"@, r2);
    } else {
        assert(r1 =~= r2);
    }
    let parts1 = if ctrl {
        seq!["Ctrl"@] + parts2
    } else {
        parts2
    };
    assert(split_at_char(r1, '+') =~= parts1);
    assert(parts1.last() == key);
    assert(parts1.drop_last() =~= modifier_parts(ctrl, alt, shift));
    lemma_parse_modifier_parts(ctrl, alt, shift);
}

/// No part of a split holds the separator.
proof fn lemma_split_parts_free(t: Seq<char>, sep: char)
    ensures
        forall|i: int|
            0 <= i < split_at_char(t, sep).len() ==> free_of(#[trigger] split_at_char(t, sep)[i], sep),
    decreases t.len(),
{
    if t.len() > 0 {
        lemma_split_parts_free(t.drop_last(), sep);
        lemma_split_len(t.drop_last(), sep);
        let front = split_at_char(t.drop_last(), sep);
        if t.last() != sep {
            let grown = front.last().push(t.last());
            assert(free_of(grown, sep)) by {
                assert forall|j: int| 0 <= j < grown.len() implies grown[j] != sep by {
                    if j < front.last().len() {
                        assert(grown[j] == front.last()[j]);
                        assert(free_of(front[front.len() - 1], sep));
                    }
                }
            }
            assert forall|i: int|
                0 <= i < split_at_char(t, sep).len() implies free_of(
                #[trigger] split_at_char(t, sep)[i],
                sep,
            ) by {
                if i < front.len() - 1 {
                    assert(split_at_char(t, sep)[i] == front[i]);
                }
            }
        } else {
            assert forall|i: int|
                0 <= i < split_at_char(t, sep).len() implies free_of(
                #[trigger] split_at_char(t, sep)[i],
                sep,
            ) by {
                if i < front.len() {
                    assert(split_at_char(t, sep)[i] == front[i]);
                }
            }
        }
    }
}

/// The modifiers a parse gives carry no other bits.
proof fn lemma_parsed_modifiers_plain(parts: Seq<Seq<char>>)
    ensures
        parse_modifiers(parts) matches Ok(m) ==> m.others == 0,
    decreases parts.len(),
{
    if parts.len() > 0 {
        lemma_parsed_modifiers_plain(parts.drop_last());
    }
}

/// Every combination a key string names spells back, but for an arrow key
/// and for Shift held with a character that is not an uppercase letter.
pub proof fn parsed_combo_spells_back(text: Seq<char>, c: KeyCombo)
    requires
        parsed_key_combo(text) == Ok::<KeyCombo, Seq<char>>(c),
        !(c.code is Up || c.code is Down || c.code is Left || c.code is Right),
        c.code matches KeyCode::Char(ch) ==> c.modifiers.shift == ('A' <= ch && ch <= 'Z'),
    ensures
        spells_back(c),
        parsed_key_combo(formatted_combo(c)) == Ok::<KeyCombo, Seq<char>>(c),
{
    let parts = split_at_char(text, '+');
    lemma_split_len(text, '+');
    lemma_split_parts_free(text, '+');
    lemma_parsed_modifiers_plain(parts.drop_last());
    let key = parts.last();
    assert(free_of(parts[parts.len() - 1], '+'));
    lemma_key_names();
    reveal_strlit("Enter");
    reveal_strlit("Return");
    reveal_strlit("Esc");
    reveal_strlit("Escape");
    reveal_strlit("Backspace");
    reveal_strlit("Delete");
    reveal_strlit("Del");
    reveal_strlit("Space");
    if key.len() == 1 && named_key(key) is None && !(key.len() > 1 && key[0] == 'F') {
        assert(key[0] != '+');
    }
    display_parses_back(c);
}

/// Whether `part`, in lowercase, names a modifier.
pub open spec fn is_modifier_name(part: Seq<char>) -> bool {
    let name = folded(part);
    name == "ctrl"@ || name == "shift"@ || name == "alt"@
}

/// Whether `key` names a key: by its name, as `F` and a number below 256, or
/// as one ASCII character.
pub open spec fn names_a_key(key: Seq<char>) -> bool {
    ||| named_key(key) is Some
    ||| (key.len() > 1 && key[0] == 'F' && parse_u8(key.skip(1)) is Some)
    ||| (key.len() == 1 && (key[0] as u32) < 0x80)
}

proof fn modifiers_refused_exactly_when(parts: Seq<Seq<char>>)
    ensures
        parse_modifiers(parts) is Err <==> exists|i: int|
            0 <= i < parts.len() && !is_modifier_name(#[trigger] parts[i]),
    decreases parts.len(),
{
    if parts.len() > 0 {
        let front = parts.drop_last();
        modifiers_refused_exactly_when(front);
        if exists|i: int| 0 <= i < front.len() && !is_modifier_name(#[trigger] front[i]) {
            let i = choose|i: int| 0 <= i < front.len() && !is_modifier_name(#[trigger] front[i]);
            assert(parts[i] == front[i]);
        }
        if exists|i: int| 0 <= i < parts.len() && !is_modifier_name(#[trigger] parts[i]) {
            let i = choose|i: int| 0 <= i < parts.len() && !is_modifier_name(#[trigger] parts[i]);
            if i < front.len() {
                assert(front[i] == parts[i]);
            }
        }
    }
}

/// A key string is refused exactly when a part before the last, in
/// lowercase, is not `ctrl`, `shift` or `alt`, or the last part names no key.
pub proof fn a_key_string_is_refused_exactly_when(text: Seq<char>)
    ensures
        ({
            let parts = split_at_char(text, '+');
            parsed_key_combo(text) is Err <==> (exists|i: int|
                0 <= i < parts.len() - 1 && !is_modifier_name(#[trigger] parts[i]))
                || !names_a_key(parts.last())
        }),
{
    let parts = split_at_char(text, '+');
    lemma_split_len(text, '+');
    let front = parts.drop_last();
    modifiers_refused_exactly_when(front);
    if exists|i: int| 0 <= i < parts.len() - 1 && !is_modifier_name(#[trigger] parts[i]) {
        let i = choose|i: int| 0 <= i < parts.len() - 1 && !is_modifier_name(#[trigger] parts[i]);
        assert(front[i] == parts[i]);
    }
    if exists|i: int| 0 <= i < front.len() && !is_modifier_name(#[trigger] front[i]) {
        let i = choose|i: int| 0 <= i < front.len() && !is_modifier_name(#[trigger] front[i]);
        assert(front[i] == parts[i]);
    }
}

} // verus!
